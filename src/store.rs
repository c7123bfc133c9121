use vstd::prelude::*;

use crate::entry::{DisplayedFile, MAX_SCORE};
use crate::scoring::{score, term_score};

verus! {

/// The visible view of a backing sequence: the entries with a positive score,
/// in their stored order.
pub open spec fn visible(s: Seq<DisplayedFile>) -> Seq<DisplayedFile> {
    s.filter(shown())
}

pub open spec fn shown() -> spec_fn(DisplayedFile) -> bool {
    |f: DisplayedFile| f.is_visible()
}

pub open spec fn picked() -> spec_fn(DisplayedFile) -> bool {
    |f: DisplayedFile| f.is_visible() && f.selected
}

pub open spec fn unpicked() -> spec_fn(DisplayedFile) -> bool {
    |f: DisplayedFile| !(f.is_visible() && f.selected)
}

pub open spec fn elsewhere(path: Seq<char>) -> spec_fn(DisplayedFile) -> bool {
    |f: DisplayedFile| f.data.path@ != path
}

/// The entries that a batch delete takes out: visible and selected.
pub open spec fn drained(s: Seq<DisplayedFile>) -> Seq<DisplayedFile> {
    s.filter(picked())
}

/// What stays behind after a batch delete.
pub open spec fn undrained(s: Seq<DisplayedFile>) -> Seq<DisplayedFile> {
    s.filter(unpicked())
}

/// The sequence without the entries stored under `path`.
pub open spec fn without_path(s: Seq<DisplayedFile>, path: Seq<char>) -> Seq<DisplayedFile> {
    s.filter(elsewhere(path))
}

/// `k` is the physical position of the `i`-th visible entry of `s`.
pub open spec fn is_visible_pos(s: Seq<DisplayedFile>, k: int, i: int) -> bool {
    &&& 0 <= k < s.len()
    &&& s[k].is_visible()
    &&& visible(s.take(k)).len() == i
}

/// Every entry rescored under the search term `term`; nothing moves.
pub open spec fn rescored(s: Seq<DisplayedFile>, term: Seq<char>) -> Seq<DisplayedFile> {
    Seq::new(
        s.len(),
        |k: int| DisplayedFile { curr_score: term_score(term, s[k].data.name@), ..s[k] },
    )
}

/// The entry with its selection flag flipped.
pub open spec fn toggled(f: DisplayedFile) -> DisplayedFile {
    DisplayedFile { selected: !f.selected, ..f }
}

pub proof fn lemma_filter_push(
    s: Seq<DisplayedFile>,
    x: DisplayedFile,
    p: spec_fn(DisplayedFile) -> bool,
)
    ensures
        s.push(x).filter(p) == (if p(x) {
            s.filter(p).push(x)
        } else {
            s.filter(p)
        }),
{
    reveal(Seq::filter);
    assert(s.push(x).drop_last() =~= s);
}

pub proof fn lemma_filter_take_step(s: Seq<DisplayedFile>, k: int, p: spec_fn(DisplayedFile) -> bool)
    requires
        0 <= k < s.len(),
    ensures
        s.take(k + 1).filter(p) == (if p(s[k]) {
            s.take(k).filter(p).push(s[k])
        } else {
            s.take(k).filter(p)
        }),
{
    assert(s.take(k + 1) =~= s.take(k).push(s[k]));
    lemma_filter_push(s.take(k), s[k], p);
}

pub proof fn lemma_filter_single(x: DisplayedFile, p: spec_fn(DisplayedFile) -> bool)
    ensures
        seq![x].filter(p) == (if p(x) {
            seq![x]
        } else {
            Seq::<DisplayedFile>::empty()
        }),
{
    lemma_filter_push(Seq::empty(), x, p);
    reveal(Seq::filter);
    assert(Seq::<DisplayedFile>::empty().push(x) =~= seq![x]);
}

/// Splits `s` around position `k` and distributes the filter over the parts.
pub proof fn lemma_filter_split(s: Seq<DisplayedFile>, k: int, p: spec_fn(DisplayedFile) -> bool)
    requires
        0 <= k < s.len(),
    ensures
        s.filter(p) == s.take(k).filter(p) + seq![s[k]].filter(p) + s.skip(k + 1).filter(p),
        s.remove(k).filter(p) == s.take(k).filter(p) + s.skip(k + 1).filter(p),
{
    assert(s =~= s.take(k) + seq![s[k]] + s.skip(k + 1));
    assert(s.remove(k) =~= s.take(k) + s.skip(k + 1));
    Seq::filter_distributes_over_add(s.take(k) + seq![s[k]], s.skip(k + 1), p);
    Seq::filter_distributes_over_add(s.take(k), seq![s[k]], p);
    Seq::filter_distributes_over_add(s.take(k), s.skip(k + 1), p);
}

/// The visible entry at position `k` is the `i`-th one of the visible view.
pub proof fn lemma_visible_pos(s: Seq<DisplayedFile>, k: int, i: int)
    requires
        is_visible_pos(s, k, i),
    ensures
        0 <= i < visible(s).len(),
        visible(s)[i] == s[k],
        visible(s) == visible(s.take(k)).push(s[k]) + visible(s.skip(k + 1)),
        visible(s.remove(k)) == visible(s).remove(i),
{
    let p = shown();
    lemma_filter_split(s, k, p);
    lemma_filter_single(s[k], p);
    assert(visible(s.take(k)) + seq![s[k]] =~= visible(s.take(k)).push(s[k]));
    assert(visible(s.remove(k)) =~= visible(s).remove(i));
}

/// No two entries share a path.
pub open spec fn distinct_paths(s: Seq<DisplayedFile>) -> bool {
    forall|i: int, j: int|
        0 <= i < s.len() && 0 <= j < s.len() && i != j ==> #[trigger] s[i].data.path@
            != #[trigger] s[j].data.path@
}

/// Dropping the path of the entry at `k` from a store whose paths are
/// distinct takes out that entry alone.
pub proof fn lemma_without_unique_path(s: Seq<DisplayedFile>, k: int, path: Seq<char>)
    requires
        distinct_paths(s),
        0 <= k < s.len(),
        s[k].data.path@ == path,
    ensures
        without_path(s, path) == s.remove(k),
        forall|m: int|
            0 <= m < without_path(s, path).len() ==> #[trigger] without_path(s, path)[m].data.path@
                != path,
{
    let p = elsewhere(path);
    lemma_filter_split(s, k, p);
    lemma_filter_single(s[k], p);
    assert forall|m: int| 0 <= m < s.take(k).len() implies p(#[trigger] s.take(k)[m]) by {
        assert(s.take(k)[m] == s[m]);
    }
    assert forall|m: int| 0 <= m < s.skip(k + 1).len() implies p(#[trigger] s.skip(k + 1)[m]) by {
        assert(s.skip(k + 1)[m] == s[k + 1 + m]);
    }
    lemma_filter_all(s.take(k), p);
    lemma_filter_all(s.skip(k + 1), p);
    assert forall|m: int| 0 <= m < without_path(s, path).len() implies #[trigger] without_path(
        s,
        path,
    )[m].data.path@ != path by {
        s.lemma_filter_pred(p, m);
    }
}

/// Every visible index has a physical position.
pub proof fn lemma_visible_pos_exists(s: Seq<DisplayedFile>, i: int) -> (k: int)
    requires
        0 <= i < visible(s).len(),
    ensures
        is_visible_pos(s, k, i),
    decreases s.len(),
{
    let r = s.drop_last();
    lemma_filter_push(r, s.last(), shown());
    assert(r.push(s.last()) =~= s);
    if i < visible(r).len() {
        let k = lemma_visible_pos_exists(r, i);
        assert(s.take(k) =~= r.take(k));
        k
    } else {
        assert(s.take(s.len() - 1) =~= r);
        s.len() - 1
    }
}

/// Replacing a visible entry by another visible entry replaces it in the view.
pub proof fn lemma_visible_update(s: Seq<DisplayedFile>, k: int, i: int, x: DisplayedFile)
    requires
        is_visible_pos(s, k, i),
        x.is_visible(),
    ensures
        visible(s.update(k, x)) == visible(s).update(i, x),
        is_visible_pos(s.update(k, x), k, i),
{
    let p = shown();
    let t = s.update(k, x);
    lemma_visible_pos(s, k, i);
    lemma_filter_split(t, k, p);
    lemma_filter_single(x, p);
    assert(t.take(k) =~= s.take(k));
    assert(t.skip(k + 1) =~= s.skip(k + 1));
    assert(visible(t) =~= visible(s).update(i, x));
}

pub proof fn lemma_filter_all(s: Seq<DisplayedFile>, p: spec_fn(DisplayedFile) -> bool)
    requires
        forall|i: int| 0 <= i < s.len() ==> p(#[trigger] s[i]),
    ensures
        s.filter(p) == s,
    decreases s.len(),
{
    reveal(Seq::filter);
    if s.len() > 0 {
        lemma_filter_all(s.drop_last(), p);
        assert(s.drop_last().push(s.last()) =~= s);
    }
}

/// Rescoring twice under the same term is the same as rescoring once: the
/// scores, and with them the visible view, do not change the second time.
pub proof fn lemma_rescore_idempotent(s: Seq<DisplayedFile>, term: Seq<char>)
    ensures
        rescored(rescored(s, term), term) == rescored(s, term),
        visible(rescored(rescored(s, term), term)) == visible(rescored(s, term)),
{
    assert(rescored(rescored(s, term), term) =~= rescored(s, term));
}

/// Under the empty term every entry gets the largest score, so the visible
/// view is the whole store.
pub proof fn lemma_empty_term_shows_all(s: Seq<DisplayedFile>)
    ensures
        forall|k: int|
            0 <= k < s.len() ==> #[trigger] rescored(s, Seq::<char>::empty())[k].curr_score
                == MAX_SCORE,
        visible(rescored(s, Seq::<char>::empty())) == rescored(s, Seq::<char>::empty()),
        visible(rescored(s, Seq::<char>::empty())).len() == s.len(),
{
    let t = rescored(s, Seq::<char>::empty());
    assert forall|i: int| 0 <= i < t.len() implies shown()(#[trigger] t[i]) by {}
    lemma_filter_all(t, shown());
}

pub struct Files(Vec<DisplayedFile>);

impl View for Files {
    type V = Seq<DisplayedFile>;

    closed spec fn view(&self) -> Seq<DisplayedFile> {
        self.0@
    }
}

impl Files {
    pub fn new() -> (r: Self)
        ensures
            r@ == Seq::<DisplayedFile>::empty(),
    {
        Files(Vec::new())
    }

    /// Number of stored entries, visible or not.
    pub fn len(&self) -> (r: usize)
        ensures
            r == self@.len(),
    {
        self.0.len()
    }

    pub fn visible_count(&self) -> (r: usize)
        ensures
            r == visible(self@).len(),
    {
        let mut count: usize = 0;
        let mut k: usize = 0;
        while k < self.0.len()
            invariant
                k <= self@.len(),
                count == visible(self@.take(k as int)).len(),
                count <= k,
            decreases self@.len() - k,
        {
            proof {
                lemma_filter_take_step(self@, k as int, shown());
            }
            if self.0[k].curr_score > 0 {
                count = count + 1;
            }
            k = k + 1;
        }
        proof {
            assert(self@.take(k as int) =~= self@);
        }
        count
    }

    /// Physical position of the `i`-th visible entry.
    fn position(&self, i: usize) -> (k: usize)
        requires
            i < visible(self@).len(),
        ensures
            is_visible_pos(self@, k as int, i as int),
            visible(self@)[i as int] == self@[k as int],
    {
        let n = self.0.len();
        let mut count: usize = 0;
        let mut k: usize = 0;
        loop
            invariant
                n == self@.len(),
                k < self@.len(),
                count == visible(self@.take(k as int)).len(),
                count <= i,
                i < visible(self@).len(),
            decreases self@.len() - k,
        {
            proof {
                lemma_filter_take_step(self@, k as int, shown());
            }
            if self.0[k].curr_score > 0 {
                if count == i {
                    proof {
                        lemma_visible_pos(self@, k as int, i as int);
                    }
                    return k;
                }
                count = count + 1;
            }
            proof {
                assert(count == visible(self@.take(k + 1)).len());
                if k + 1 == self@.len() {
                    assert(self@.take(k + 1) =~= self@);
                }
            }
            k = k + 1;
        }
    }

    /// The `i`-th visible entry.
    pub fn visible_at(&self, i: usize) -> (r: &DisplayedFile)
        requires
            i < visible(self@).len(),
        ensures
            *r == visible(self@)[i as int],
    {
        let k = self.position(i);
        &self.0[k]
    }

    /// Copies of the visible entries, in their order.
    pub fn files(&self) -> (r: Vec<DisplayedFile>)
        ensures
            r@ == visible(self@),
    {
        let mut out: Vec<DisplayedFile> = Vec::new();
        let mut k: usize = 0;
        while k < self.0.len()
            invariant
                k <= self@.len(),
                out@ == visible(self@.take(k as int)),
            decreases self@.len() - k,
        {
            proof {
                lemma_filter_take_step(self@, k as int, shown());
            }
            if self.0[k].curr_score > 0 {
                out.push(self.0[k].clone());
            }
            k = k + 1;
        }
        proof {
            assert(self@.take(k as int) =~= self@);
        }
        out
    }

    /// Discards everything held and installs `files` in their order.
    pub fn set(&mut self, files: Vec<DisplayedFile>)
        ensures
            final(self)@ == files@,
    {
        self.0 = files;
    }

    /// Flips the selection flag of the `i`-th visible entry.
    pub fn toggle_selected(&mut self, i: usize)
        requires
            i < visible(old(self)@).len(),
        ensures
            exists|k: int|
                is_visible_pos(old(self)@, k, i as int) && final(self)@ == old(self)@.update(
                    k,
                    toggled(old(self)@[k]),
                ),
            visible(final(self)@) == visible(old(self)@).update(
                i as int,
                toggled(visible(old(self)@)[i as int]),
            ),
    {
        let k = self.position(i);
        proof {
            lemma_visible_update(self@, k as int, i as int, toggled(self@[k as int]));
        }
        let flag = self.0[k].selected;
        self.0[k].selected = !flag;
        proof {
            assert(self@ =~= old(self)@.update(k as int, toggled(old(self)@[k as int])));
        }
    }

    /// Whether some visible entry is selected.
    pub fn any_selected(&self) -> (r: bool)
        ensures
            r == (drained(self@).len() > 0),
    {
        let mut k: usize = 0;
        while k < self.0.len()
            invariant
                k <= self@.len(),
                drained(self@.take(k as int)).len() == 0,
            decreases self@.len() - k,
        {
            proof {
                lemma_filter_take_step(self@, k as int, picked());
            }
            if self.0[k].curr_score > 0 && self.0[k].selected {
                proof {
                    Seq::filter_distributes_over_add(self@.take(k + 1), self@.skip(k + 1), picked());
                    assert(self@ =~= self@.take(k + 1) + self@.skip(k + 1));
                }
                return true;
            }
            k = k + 1;
        }
        proof {
            assert(self@.take(k as int) =~= self@);
        }
        false
    }

    /// Removes the `i`-th visible entry and hands it back.
    pub fn remove(&mut self, index: usize) -> (r: DisplayedFile)
        requires
            index < visible(old(self)@).len(),
        ensures
            r == visible(old(self)@)[index as int],
            visible(final(self)@) == visible(old(self)@).remove(index as int),
            exists|k: int|
                is_visible_pos(old(self)@, k, index as int) && final(self)@ == old(self)@.remove(
                    k,
                ),
    {
        let k = self.position(index);
        proof {
            lemma_visible_pos(self@, k as int, index as int);
        }
        self.0.remove(k)
    }

    /// Removes every visible selected entry and returns them in their order.
    pub fn drain(&mut self) -> (r: Vec<DisplayedFile>)
        ensures
            r@ == drained(old(self)@),
            final(self)@ == undrained(old(self)@),
    {
        let ghost orig = self@;
        let mut out: Vec<DisplayedFile> = Vec::new();
        let mut i: usize = 0;
        let ghost mut j: int = 0;
        proof {
            assert(orig.take(0) =~= Seq::<DisplayedFile>::empty());
            reveal(Seq::filter);
            assert(self@ =~= undrained(orig.take(0)) + orig.skip(0));
        }
        while i < self.0.len()
            invariant
                0 <= j <= orig.len(),
                self@ == undrained(orig.take(j)) + orig.skip(j),
                i == undrained(orig.take(j)).len(),
                out@ == drained(orig.take(j)),
            decreases self@.len() - i,
        {
            proof {
                lemma_filter_take_step(orig, j, picked());
                lemma_filter_take_step(orig, j, unpicked());
                assert(self@[i as int] == orig[j]);
            }
            if self.0[i].curr_score > 0 && self.0[i].selected {
                let f = self.0.remove(i);
                out.push(f);
                proof {
                    assert(self@ =~= undrained(orig.take(j + 1)) + orig.skip(j + 1));
                }
            } else {
                i = i + 1;
                proof {
                    assert(self@ =~= undrained(orig.take(j + 1)) + orig.skip(j + 1));
                }
            }
            proof {
                j = j + 1;
            }
        }
        proof {
            assert(orig.take(j) =~= orig);
            assert(self@ =~= undrained(orig));
        }
        out
    }

    /// Removes the entries stored under `path`; tells whether there was one.
    pub fn remove_path(&mut self, path: &String) -> (r: bool)
        ensures
            final(self)@ == without_path(old(self)@, path@),
            r == exists|k: int| 0 <= k < old(self)@.len() && old(self)@[k].data.path@ == path@,
    {
        let ghost orig = self@;
        let ghost p = elsewhere(path@);
        let mut found = false;
        let mut i: usize = 0;
        let ghost mut j: int = 0;
        proof {
            assert(orig.take(0) =~= Seq::<DisplayedFile>::empty());
            reveal(Seq::filter);
            assert(self@ =~= without_path(orig.take(0), path@) + orig.skip(0));
        }
        while i < self.0.len()
            invariant
                p == elsewhere(path@),
                0 <= j <= orig.len(),
                self@ == without_path(orig.take(j), path@) + orig.skip(j),
                i == without_path(orig.take(j), path@).len(),
                found == exists|k: int| 0 <= k < j && orig[k].data.path@ == path@,
            decreases self@.len() - i,
        {
            proof {
                lemma_filter_take_step(orig, j, p);
                assert(self@[i as int] == orig[j]);
            }
            if self.0[i].data.path == *path {
                self.0.remove(i);
                found = true;
                proof {
                    assert(self@ =~= without_path(orig.take(j + 1), path@) + orig.skip(j + 1));
                }
            } else {
                i = i + 1;
                proof {
                    assert(self@ =~= without_path(orig.take(j + 1), path@) + orig.skip(j + 1));
                }
            }
            proof {
                j = j + 1;
            }
        }
        proof {
            assert(orig.take(j) =~= orig);
            assert(self@ =~= without_path(orig, path@));
        }
        found
    }

    /// Gives every entry the score of its name under `term`, without
    /// reordering or dropping anything.
    pub fn new_scores(&mut self, term: &Vec<char>)
        ensures
            final(self)@ == rescored(old(self)@, term@),
    {
        let mut k: usize = 0;
        while k < self.0.len()
            invariant
                k <= self@.len(),
                self@.len() == old(self)@.len(),
                forall|m: int| 0 <= m < k ==> self@[m] == rescored(old(self)@, term@)[m],
                forall|m: int| k <= m < self@.len() ==> self@[m] == old(self)@[m],
            decreases self@.len() - k,
        {
            let s = score(term, self.0[k].data.name.as_str());
            self.0[k].curr_score = s;
            k = k + 1;
        }
        proof {
            assert(self@ =~= rescored(old(self)@, term@));
        }
    }
}

} // verus!
