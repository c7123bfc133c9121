use vstd::prelude::*;

use std::path::Path;

use crate::entry::{DisplayedFile, File, MAX_SCORE};
use crate::mode::{
    is_fresh_settings, is_settings_shortcut, normal_action, search_action, settings_action, Action,
    KeyEvent, Mode, SettingsInputKind, SettingsView, View,
};
use crate::store::{
    distinct_paths, drained, elsewhere, is_visible_pos, lemma_empty_term_shows_all,
    lemma_filter_all, lemma_rescore_idempotent, lemma_visible_pos, lemma_visible_pos_exists,
    lemma_without_unique_path, picked, rescored, toggled, undrained, unpicked, visible,
    without_path, Files,
};
use vstd::view::View as _;

verus! {

/// A delete that failed, keyed by the path it was asked for.
#[derive(Debug, Clone)]
pub struct FileDeleteError(pub String);

/// An open with the default handler that failed, keyed by its path.
#[derive(Debug, Clone)]
pub struct OpenError(pub String);

/// Outside work that the controller asks for; each comes back as a message.
#[derive(Debug, Clone)]
pub enum Task {
    /// List the directory; the answer carries the generation it was asked under.
    GetFiles(String, u64),
    /// Delete the path, which is a directory when the flag is set.
    Delete(String, bool),
    /// Open the path with the system's default handler.
    Open(String),
    /// Apply the typed text as the theme color of that field.
    SetColor(SettingsInputKind, String),
}

/// What reaches the controller: input events and the results of its tasks.
#[derive(Debug)]
pub enum Message {
    FilesLoaded(u64, Vec<File>),
    ListingFailed(u64),
    KeyEvent(KeyEvent),
    FileDeleteResult(Result<String, FileDeleteError>),
    FileOpenResult(Result<(), OpenError>),
    ColorInput(SettingsInputKind, String),
    SubmitColor(SettingsInputKind),
}

/// The parent directory of `path` as `std::path::Path::parent` computes it.
pub uninterp spec fn parent_of(path: Seq<char>) -> Option<Seq<char>>;

/// Relies on `std::path::Path::parent`, which works on the path text alone.
#[verifier::external_body]
fn parent_dir(path: &String) -> (r: Option<String>)
    ensures
        match r {
            Some(p) => parent_of(path@) == Some(p@),
            None => parent_of(path@) is None,
        },
{
    match Path::new(path).parent() {
        Some(p) => Some(p.to_string_lossy().into_owned()),
        None => None,
    }
}

/// The controller: the entries of the current directory, the cursor, the
/// mode and the search term, and what it has learned from its tasks.
pub struct Fls {
    pub current_dir: String,
    pub mode: Mode,
    pub search_term: Vec<char>,
    pub hovered: usize,
    pub should_exit: bool,
    pub curr_view: View,
    /// Stamp of the latest navigation; listings of older ones are stale.
    pub generation: u64,
    pub cache: Files,
    /// The latest listing of the current directory failed.
    pub unreadable: bool,
    pub delete_failures: Vec<FileDeleteError>,
    pub open_failures: Vec<OpenError>,
}

/// The cursor lies on a visible entry, or at 0 when none is visible.
pub open spec fn hover_in_range(hovered: usize, count: nat) -> bool {
    if count == 0 {
        hovered == 0
    } else {
        hovered < count
    }
}

/// `min(h, count - 1)`, and 0 for an empty view.
pub open spec fn clamped(h: usize, count: nat) -> usize {
    if count == 0 {
        0
    } else if h < count {
        h
    } else {
        (count - 1) as usize
    }
}

/// The generation after `g`. It wraps at the top, so it always differs from `g`.
pub open spec fn next_generation(g: u64) -> u64 {
    if g == u64::MAX {
        0
    } else {
        (g + 1) as u64
    }
}

/// A fresh listing: every entry fully visible and unselected.
pub open spec fn installed(files: Seq<File>) -> Seq<DisplayedFile> {
    Seq::new(
        files.len(),
        |k: int| DisplayedFile { curr_score: MAX_SCORE, data: files[k], selected: false },
    )
}

pub open spec fn delete_task(f: DisplayedFile) -> Task {
    Task::Delete(f.data.path, f.data.is_dir)
}

impl Fls {
    /// The cursor is in range and no two stored entries share a path.
    pub open spec fn wf(&self) -> bool {
        &&& hover_in_range(self.hovered, visible(self.cache@).len())
        &&& distinct_paths(self.cache@)
    }

    pub open spec fn shown_count(&self) -> nat {
        visible(self.cache@).len()
    }

    /// The entry under the cursor.
    pub open spec fn hovered_entry(&self) -> DisplayedFile {
        visible(self.cache@)[self.hovered as int]
    }
}

/// `post` is a controller freshly rooted at `dir`, stamped `generation`.
/// The exit flag is not part of this: once set, it stays set.
pub open spec fn is_rooted_at(post: Fls, dir: Seq<char>, generation: u64) -> bool {
    &&& post.current_dir@ == dir
    &&& post.mode == Mode::Normal
    &&& post.search_term@ == Seq::<char>::empty()
    &&& post.hovered == 0
    &&& post.curr_view is MainView
    &&& post.generation == generation
    &&& post.cache@ == Seq::<DisplayedFile>::empty()
    &&& !post.unreadable
    &&& post.delete_failures@ == Seq::<FileDeleteError>::empty()
    &&& post.open_failures@ == Seq::<OpenError>::empty()
}

/// A listing of `dir`, asked under `generation`, is the one task.
pub open spec fn lists(tasks: Seq<Task>, dir: Seq<char>, generation: u64) -> bool {
    &&& tasks.len() == 1
    &&& tasks[0] matches Task::GetFiles(p, g)
    &&& p@ == dir
    &&& g == generation
}

/// Navigation to `dir`: a full reset under a new generation, and a listing.
pub open spec fn navigated(pre: Fls, dir: Seq<char>, post: Fls, tasks: Seq<Task>) -> bool {
    &&& is_rooted_at(post, dir, next_generation(pre.generation))
    &&& post.should_exit == pre.should_exit
    &&& lists(tasks, dir, post.generation)
}

/// The search term became `term` and every entry was rescored under it.
pub open spec fn searched(pre: Fls, term: Seq<char>, post: Fls) -> bool {
    &&& post == Fls {
        cache: post.cache,
        hovered: 0,
        search_term: post.search_term,
        ..pre
    }
    &&& post.search_term@ == term
    &&& post.cache@ == rescored(pre.cache@, term)
}

/// How the controller in state `pre` carries out `a`, ending in `post`
/// and asking for `tasks`.
pub open spec fn takes_action(pre: Fls, a: Action, post: Fls, tasks: Seq<Task>) -> bool {
    let count = pre.shown_count();
    match a {
        Action::Up => {
            &&& post == Fls {
                hovered: if pre.hovered == 0 {
                    0
                } else {
                    (pre.hovered - 1) as usize
                },
                ..pre
            }
            &&& tasks.len() == 0
        },
        Action::Down => {
            &&& post == Fls {
                hovered: if count == 0 {
                    0
                } else if pre.hovered + 1 < count {
                    (pre.hovered + 1) as usize
                } else {
                    (count - 1) as usize
                },
                ..pre
            }
            &&& tasks.len() == 0
        },
        Action::UpDir => match parent_of(pre.current_dir@) {
            Some(dir) => navigated(pre, dir, post, tasks),
            None => post == pre && tasks.len() == 0,
        },
        Action::Open => if count == 0 {
            post == pre && tasks.len() == 0
        } else if pre.hovered_entry().data.is_dir {
            navigated(pre, pre.hovered_entry().data.path@, post, tasks)
        } else {
            post == pre && tasks == seq![Task::Open(pre.hovered_entry().data.path)]
        },
        Action::Delete => if drained(pre.cache@).len() > 0 {
            &&& post == Fls { cache: post.cache, hovered: post.hovered, ..pre }
            &&& post.cache@ == undrained(pre.cache@)
            &&& post.hovered == clamped(pre.hovered, visible(post.cache@).len())
            &&& tasks == drained(pre.cache@).map_values(|f: DisplayedFile| delete_task(f))
        } else if count > 0 {
            post == pre && tasks == seq![delete_task(pre.hovered_entry())]
        } else {
            post == pre && tasks.len() == 0
        },
        Action::ToggleCurrent => {
            &&& tasks.len() == 0
            &&& if count == 0 {
                post == pre
            } else {
                &&& post == Fls { cache: post.cache, ..pre }
                &&& exists|k: int|
                    is_visible_pos(pre.cache@, k, pre.hovered as int) && post.cache@
                        == pre.cache@.update(k, toggled(pre.cache@[k]))
            }
        },
        Action::NewMode(m) => {
            &&& searched(
                Fls { mode: m, ..pre },
                if m == Mode::Normal {
                    Seq::<char>::empty()
                } else {
                    pre.search_term@
                },
                post,
            )
            &&& tasks.len() == 0
        },
        Action::NewView(v) => post == Fls { curr_view: v, ..pre } && tasks.len() == 0,
        Action::AddToSearch(c) => searched(pre, pre.search_term@.push(c), post) && tasks.len()
            == 0,
        Action::PopFromSearch => {
            &&& if pre.search_term@.len() > 0 {
                searched(pre, pre.search_term@.drop_last(), post)
            } else {
                post == pre
            }
            &&& tasks.len() == 0
        },
        Action::FreezeSearch => post == Fls { mode: Mode::Normal, ..pre } && tasks.len() == 0,
        Action::Quit => post == Fls { should_exit: true, ..pre } && tasks.len() == 0,
        Action::Noop => post == pre && tasks.len() == 0,
    }
}

/// `a` is what the key event `e` asks for on the screen and in the mode of `pre`.
pub open spec fn key_action(pre: Fls, e: KeyEvent, a: Action) -> bool {
    match pre.curr_view {
        View::MainView => match pre.mode {
            Mode::Normal => if is_settings_shortcut(e) {
                is_fresh_settings(a)
            } else {
                a == normal_action(e)
            },
            Mode::Search(_) => a == search_action(e),
        },
        View::Settings(_) => a == settings_action(e),
    }
}

/// The settings screen with the field of `kind` set to `text`.
pub open spec fn with_input(s: SettingsView, kind: SettingsInputKind, text: String) -> SettingsView {
    match kind {
        SettingsInputKind::PrimaryColor => SettingsView { primary_input: text, ..s },
        SettingsInputKind::SecondaryColor => SettingsView { secondary_input: text, ..s },
    }
}

pub open spec fn input_of(s: SettingsView, kind: SettingsInputKind) -> String {
    match kind {
        SettingsInputKind::PrimaryColor => s.primary_input,
        SettingsInputKind::SecondaryColor => s.secondary_input,
    }
}

/// How the controller in state `pre` handles `msg`, ending in `post` and
/// asking for `tasks`.
pub open spec fn handles(pre: Fls, msg: Message, post: Fls, tasks: Seq<Task>) -> bool {
    match msg {
        Message::KeyEvent(e) => if pre.should_exit {
            post == pre && tasks.len() == 0
        } else {
            exists|a: Action| key_action(pre, e, a) && takes_action(pre, a, post, tasks)
        },
        _ => tasks.len() == 0 && match msg {
            Message::FilesLoaded(g, files) => if g == pre.generation {
                if distinct_file_paths(files@) {
                    &&& post == Fls { cache: post.cache, hovered: 0, unreadable: false, ..pre }
                    &&& post.cache@ == installed(files@)
                } else {
                    post == Fls { unreadable: true, ..pre }
                }
            } else {
                post == pre
            },
            Message::ListingFailed(g) => if g == pre.generation {
                post == Fls { unreadable: true, ..pre }
            } else {
                post == pre
            },
            Message::FileDeleteResult(Ok(path)) => {
                &&& post == Fls { cache: post.cache, hovered: post.hovered, ..pre }
                &&& post.cache@ == without_path(pre.cache@, path@)
                &&& post.hovered == clamped(pre.hovered, visible(post.cache@).len())
            },
            Message::FileDeleteResult(Err(e)) => {
                &&& post == Fls { delete_failures: post.delete_failures, ..pre }
                &&& post.delete_failures@ == pre.delete_failures@.push(e)
            },
            Message::FileOpenResult(Ok(())) => post == pre,
            Message::FileOpenResult(Err(e)) => {
                &&& post == Fls { open_failures: post.open_failures, ..pre }
                &&& post.open_failures@ == pre.open_failures@.push(e)
            },
            Message::ColorInput(kind, text) => match pre.curr_view {
                View::Settings(s) => post == Fls {
                    curr_view: View::Settings(with_input(s, kind, text)),
                    ..pre
                },
                View::MainView => post == pre,
            },
            _ => post == pre,
        },
    }
}

/// What submitting the color field `kind` asks for: nothing outside the
/// settings screen.
pub open spec fn submitted(pre: Fls, kind: SettingsInputKind, tasks: Seq<Task>) -> bool {
    match pre.curr_view {
        View::Settings(s) => tasks == seq![Task::SetColor(kind, input_of(s, kind))],
        View::MainView => tasks.len() == 0,
    }
}

/// Whether no two files of a listing share a path.
pub fn has_distinct_paths(files: &Vec<File>) -> (r: bool)
    ensures
        r == distinct_file_paths(files@),
{
    let mut i: usize = 0;
    while i < files.len()
        invariant
            i <= files@.len(),
            forall|a: int, b: int|
                0 <= a < i && 0 <= b < files@.len() && a != b ==> #[trigger] files@[a].path@
                    != #[trigger] files@[b].path@,
        decreases files@.len() - i,
    {
        let mut j: usize = 0;
        while j < files.len()
            invariant
                i < files@.len(),
                j <= files@.len(),
                forall|a: int, b: int|
                    0 <= a < i && 0 <= b < files@.len() && a != b ==> #[trigger] files@[a].path@
                        != #[trigger] files@[b].path@,
                forall|b: int| 0 <= b < j && b != i ==> files@[i as int].path@ != #[trigger] files@[b].path@,
            decreases files@.len() - j,
        {
            if j != i && files[i].path == files[j].path {
                return false;
            }
            j = j + 1;
        }
        i = i + 1;
    }
    true
}

impl Fls {
    /// A controller rooted at `dir`, and the listing it needs first.
    pub fn new(dir: String) -> (r: (Fls, Task))
        ensures
            r.0.wf(),
            is_rooted_at(r.0, dir@, 0),
            !r.0.should_exit,
            lists(seq![r.1], dir@, 0),
    {
        let listing = Task::GetFiles(dir.clone(), 0);
        let app = Fls {
            current_dir: dir,
            mode: Mode::Normal,
            search_term: Vec::new(),
            hovered: 0,
            should_exit: false,
            curr_view: View::MainView,
            generation: 0,
            cache: Files::new(),
            unreadable: false,
            delete_failures: Vec::new(),
            open_failures: Vec::new(),
        };
        (app, listing)
    }

    /// Roots the controller at `dir`: a full reset under a new generation,
    /// and a listing of `dir` to ask for.
    pub fn navigate(&mut self, dir: String) -> (r: Vec<Task>)
        ensures
            final(self).wf(),
            navigated(*old(self), dir@, *final(self), r@),
    {
        let generation = self.generation.wrapping_add(1);
        let listing = Task::GetFiles(dir.clone(), generation);
        let should_exit = self.should_exit;
        *self = Fls {
            current_dir: dir,
            mode: Mode::Normal,
            search_term: Vec::new(),
            hovered: 0,
            should_exit,
            curr_view: View::MainView,
            generation,
            cache: Files::new(),
            unreadable: false,
            delete_failures: Vec::new(),
            open_failures: Vec::new(),
        };
        vec![listing]
    }

    /// Rescores every entry under the current term and puts the cursor on
    /// the first visible entry.
    pub fn refresh_filter(&mut self)
        requires
            old(self).wf(),
        ensures
            final(self).wf(),
            searched(*old(self), old(self).search_term@, *final(self)),
    {
        self.cache.new_scores(&self.search_term);
        self.hovered = 0;
        proof {
            assert(forall|i: int|
                0 <= i < self.cache@.len() ==> #[trigger] self.cache@[i].data.path@
                    == old(self).cache@[i].data.path@);
        }
    }

    /// Copies of the visible entries, in their order.
    pub fn files(&self) -> (r: Vec<DisplayedFile>)
        ensures
            r@ == visible(self.cache@),
    {
        self.cache.files()
    }

    pub fn visible_count(&self) -> (r: usize)
        ensures
            r == self.shown_count(),
    {
        self.cache.visible_count()
    }

    /// Carries out one action and returns the tasks it asks for.
    pub fn take_action(&mut self, action: Action) -> (r: Vec<Task>)
        requires
            old(self).wf(),
        ensures
            final(self).wf(),
            takes_action(*old(self), action, *final(self), r@),
    {
        let mut tasks: Vec<Task> = Vec::new();
        match action {
            Action::Quit => {
                self.should_exit = true;
            },
            Action::Up => {
                self.hovered = self.hovered.saturating_sub(1);
            },
            Action::Down => {
                let count = self.cache.visible_count();
                if count > 0 {
                    self.hovered = if self.hovered + 1 < count {
                        self.hovered + 1
                    } else {
                        count - 1
                    };
                }
            },
            Action::NewMode(m) => {
                if m == Mode::Normal {
                    self.search_term.clear();
                }
                self.mode = m;
                self.refresh_filter();
            },
            Action::ToggleCurrent => {
                if self.cache.visible_count() > 0 {
                    self.cache.toggle_selected(self.hovered);
                    proof {
                        let k = choose|k: int|
                            is_visible_pos(old(self).cache@, k, old(self).hovered as int)
                                && self.cache@ == old(self).cache@.update(
                                k,
                                toggled(old(self).cache@[k]),
                            );
                        assert(forall|i: int|
                            0 <= i < self.cache@.len() ==> #[trigger] self.cache@[i].data.path@
                                == old(self).cache@[i].data.path@);
                    }
                }
            },
            Action::Delete => {
                if self.cache.any_selected() {
                    let files = self.cache.drain();
                    proof {
                        lemma_filter_distinct(old(self).cache@, unpicked());
                    }
                    let mut k: usize = 0;
                    while k < files.len()
                        invariant
                            k <= files@.len(),
                            tasks@ == files@.take(k as int).map_values(
                                |f: DisplayedFile| delete_task(f),
                            ),
                        decreases files@.len() - k,
                    {
                        tasks.push(Task::Delete(files[k].data.path.clone(), files[k].data.is_dir));
                        proof {
                            assert(files@.take(k + 1) =~= files@.take(k as int).push(files@[k as int]));
                            assert(tasks@ =~= files@.take(k + 1).map_values(
                                |f: DisplayedFile| delete_task(f),
                            ));
                        }
                        k = k + 1;
                    }
                    proof {
                        assert(files@.take(k as int) =~= files@);
                    }
                    let count = self.cache.visible_count();
                    self.hovered = if count == 0 {
                        0
                    } else if self.hovered < count {
                        self.hovered
                    } else {
                        count - 1
                    };
                } else if self.cache.visible_count() > 0 {
                    let f = self.cache.visible_at(self.hovered);
                    tasks.push(Task::Delete(f.data.path.clone(), f.data.is_dir));
                }
            },
            Action::Open => {
                if self.cache.visible_count() > 0 {
                    let f = self.cache.visible_at(self.hovered);
                    let path = f.data.path.clone();
                    if f.data.is_dir {
                        tasks = self.navigate(path);
                    } else {
                        tasks.push(Task::Open(path));
                    }
                }
            },
            Action::UpDir => {
                match parent_dir(&self.current_dir) {
                    Some(dir) => {
                        tasks = self.navigate(dir);
                    },
                    None => {},
                }
            },
            Action::AddToSearch(c) => {
                self.search_term.push(c);
                self.refresh_filter();
            },
            Action::PopFromSearch => {
                if self.search_term.len() > 0 {
                    self.search_term.pop();
                    self.refresh_filter();
                }
            },
            Action::FreezeSearch => {
                self.mode = Mode::Normal;
            },
            Action::NewView(view) => {
                self.curr_view = view;
            },
            Action::Noop => {},
        }
        tasks
    }

    /// Handles one message and returns the tasks it asks for.
    pub fn update(&mut self, message: Message) -> (r: Vec<Task>)
        requires
            old(self).wf(),
        ensures
            final(self).wf(),
            message is SubmitColor ==> *final(self) == *old(self) && submitted(
                *old(self),
                message->SubmitColor_0,
                r@,
            ),
            !(message is SubmitColor) ==> handles(*old(self), message, *final(self), r@),
    {
        let mut tasks: Vec<Task> = Vec::new();
        match message {
            Message::FilesLoaded(generation, files) => {
                if generation != self.generation {
                } else if !has_distinct_paths(&files) {
                    self.unreadable = true;
                } else {
                    let mut entries: Vec<DisplayedFile> = Vec::new();
                    let mut k: usize = 0;
                    while k < files.len()
                        invariant
                            k <= files@.len(),
                            entries@ == installed(files@.take(k as int)),
                        decreases files@.len() - k,
                    {
                        entries.push(DisplayedFile::from(files[k].clone()));
                        proof {
                            assert(entries@ =~= installed(files@.take(k + 1)));
                        }
                        k = k + 1;
                    }
                    proof {
                        assert(files@.take(k as int) =~= files@);
                    }
                    self.cache.set(entries);
                    self.hovered = 0;
                    self.unreadable = false;
                    proof {
                        assert(forall|i: int|
                            0 <= i < self.cache@.len() ==> #[trigger] self.cache@[i].data.path@
                                == files@[i].path@);
                    }
                }
            },
            Message::ListingFailed(generation) => {
                if generation == self.generation {
                    self.unreadable = true;
                }
            },
            Message::KeyEvent(e) => {
                if !self.should_exit {
                    let ghost pre = *self;
                    let action = match self.curr_view {
                        View::MainView => self.mode.parse_event(e),
                        View::Settings(_) => View::parse_settings(e),
                    };
                    tasks = self.take_action(action);
                    assert(key_action(pre, e, action) && takes_action(pre, action, *self, tasks@));
                }
            },
            Message::FileDeleteResult(result) => {
                match result {
                    Ok(path) => {
                        self.cache.remove_path(&path);
                        proof {
                            lemma_filter_distinct(old(self).cache@, elsewhere(path@));
                        }
                        let count = self.cache.visible_count();
                        self.hovered = if count == 0 {
                            0
                        } else if self.hovered < count {
                            self.hovered
                        } else {
                            count - 1
                        };
                    },
                    Err(e) => {
                        self.delete_failures.push(e);
                    },
                }
            },
            Message::FileOpenResult(result) => {
                match result {
                    Ok(()) => {},
                    Err(e) => {
                        self.open_failures.push(e);
                    },
                }
            },
            Message::ColorInput(kind, text) => {
                match &mut self.curr_view {
                    View::Settings(s) => match kind {
                        SettingsInputKind::PrimaryColor => {
                            s.primary_input = text;
                        },
                        SettingsInputKind::SecondaryColor => {
                            s.secondary_input = text;
                        },
                    },
                    View::MainView => {},
                }
            },
            Message::SubmitColor(kind) => {
                match &self.curr_view {
                    View::Settings(s) => {
                        let text = match kind {
                            SettingsInputKind::PrimaryColor => s.primary_input.clone(),
                            SettingsInputKind::SecondaryColor => s.secondary_input.clone(),
                        };
                        tasks.push(Task::SetColor(kind, text));
                    },
                    View::MainView => {},
                }
            },
        }
        tasks
    }
}


/// No two files of a listing share a path.
pub open spec fn distinct_file_paths(files: Seq<File>) -> bool {
    forall|i: int, j: int|
        0 <= i < files.len() && 0 <= j < files.len() && i != j ==> #[trigger] files[i].path@
            != #[trigger] files[j].path@
}

proof fn lemma_filter_distinct(s: Seq<DisplayedFile>, p: spec_fn(DisplayedFile) -> bool)
    requires
        distinct_paths(s),
    ensures
        distinct_paths(s.filter(p)),
    decreases s.len(),
{
    reveal(Seq::filter);
    if s.len() > 0 {
        let rest = s.drop_last();
        assert(distinct_paths(rest));
        lemma_filter_distinct(rest, p);
        if p(s.last()) {
            let f = rest.filter(p);
            assert forall|i: int| 0 <= i < f.len() implies #[trigger] f[i].data.path@
                != s.last().data.path@ by {
                rest.lemma_filter_pred(p, i);
                assert(f.contains(f[i]));
                rest.lemma_filter_contains_rev(p, f[i]);
                let a = choose|a: int| 0 <= a < rest.len() && rest[a] == f[i];
                assert(s[a] == rest[a]);
            }
            assert(s.filter(p) == f.push(s.last()));
        }
    }
}

/// Filtering again under the term just applied changes nothing: the
/// scores, the visible view, the term and the cursor stay as they are.
pub proof fn lemma_refilter_idempotent(s0: Fls, s1: Fls, s2: Fls, term: Seq<char>)
    requires
        searched(s0, term, s1),
        searched(s1, term, s2),
    ensures
        s2.cache@ == s1.cache@,
        s2.search_term@ == s1.search_term@,
        s2 == (Fls { cache: s2.cache, search_term: s2.search_term, ..s1 }),
{
    lemma_rescore_idempotent(s0.cache@, term);
}

/// Filtering under the empty term shows every stored entry, each at the
/// largest score, with the cursor on the first.
pub proof fn lemma_empty_term_filter_shows_all(pre: Fls, post: Fls)
    requires
        searched(pre, seq![], post),
    ensures
        post.search_term@.len() == 0,
        post.cache@.len() == pre.cache@.len(),
        post.shown_count() == post.cache@.len(),
        post.hovered == 0,
        forall|k: int| 0 <= k < post.cache@.len() ==> #[trigger] post.cache@[k].curr_score == MAX_SCORE,
{
    lemma_empty_term_shows_all(pre.cache@);
}

/// A successful delete of the path of the `i`-th visible entry takes out
/// exactly that entry: the visible view loses it and keeps the others in
/// order, no entry with that path is left, and the cursor is clamped.
pub proof fn lemma_delete_success_removes_one(
    pre: Fls,
    i: int,
    path: String,
    post: Fls,
    tasks: Seq<Task>,
)
    requires
        pre.wf(),
        0 <= i < pre.shown_count(),
        path@ == visible(pre.cache@)[i].data.path@,
        handles(pre, Message::FileDeleteResult(Ok(path)), post, tasks),
    ensures
        visible(post.cache@) == visible(pre.cache@).remove(i),
        post.shown_count() == pre.shown_count() - 1,
        forall|k: int| 0 <= k < post.cache@.len() ==> #[trigger] post.cache@[k].data.path@ != path@,
        post.hovered == clamped(pre.hovered, post.shown_count()),
        tasks.len() == 0,
{
    let s = pre.cache@;
    let k = lemma_visible_pos_exists(s, i);
    lemma_visible_pos(s, k, i);
    assert(post.cache@ == without_path(s, path@));
    lemma_without_unique_path(s, k, path@);
}

/// Leaving the search for normal mode clears the term and shows every
/// stored entry again, each at the largest score.
pub proof fn lemma_clearing_term_shows_all(pre: Fls, post: Fls, tasks: Seq<Task>)
    requires
        takes_action(pre, Action::NewMode(Mode::Normal), post, tasks),
    ensures
        post.search_term@.len() == 0,
        post.shown_count() == post.cache@.len(),
        forall|k: int| 0 <= k < post.cache@.len() ==> #[trigger] post.cache@[k].curr_score == MAX_SCORE,
{
    lemma_empty_term_filter_shows_all(Fls { mode: Mode::Normal, ..pre }, post);
}

/// A listing asked for before a later navigation is stale. After `Open` on
/// a directory and then `UpDir`, the listing of the opened directory is
/// dropped when it arrives, while the listing that `UpDir` asked for is
/// applied.
pub proof fn lemma_stale_listing_dropped(
    s0: Fls,
    s1: Fls,
    t1: Seq<Task>,
    s2: Fls,
    t2: Seq<Task>,
    late: Vec<File>,
    s3: Fls,
    t3: Seq<Task>,
    fresh: Vec<File>,
    s4: Fls,
    t4: Seq<Task>,
)
    requires
        takes_action(s0, Action::Open, s1, t1),
        t1.len() == 1 && t1[0] is GetFiles,
        takes_action(s1, Action::UpDir, s2, t2),
        t2.len() == 1,
        handles(s2, Message::FilesLoaded(t1[0]->GetFiles_1, late), s3, t3),
        t2[0] is GetFiles,
        handles(s2, Message::FilesLoaded(t2[0]->GetFiles_1, fresh), s4, t4),
        distinct_file_paths(fresh@),
    ensures
        t1[0]->GetFiles_1 != t2[0]->GetFiles_1,
        s3 == s2,
        s4.cache@ == installed(fresh@),
{
}


/// `msg` is the result of deleting one of `batch`: a failure, or a success
/// for the path of one of its entries.
pub open spec fn is_batch_result(msg: Message, batch: Seq<DisplayedFile>) -> bool {
    &&& msg is FileDeleteResult
    &&& msg->FileDeleteResult_0 matches Ok(p) ==> exists|j: int|
        0 <= j < batch.len() && #[trigger] batch[j].data.path@ == p@
}

proof fn lemma_batch_paths_gone(s: Seq<DisplayedFile>, p: Seq<char>, j: int)
    requires
        distinct_paths(s),
        0 <= j < drained(s).len(),
        drained(s)[j].data.path@ == p,
    ensures
        without_path(undrained(s), p) == undrained(s),
{
    let u = undrained(s);
    let y = drained(s)[j];
    s.lemma_filter_pred(picked(), j);
    assert(s.filter(picked()).contains(y));
    s.lemma_filter_contains_rev(picked(), y);
    let b = choose|b: int| 0 <= b < s.len() && s[b] == y;
    assert forall|i: int| 0 <= i < u.len() implies elsewhere(p)(#[trigger] u[i]) by {
        s.lemma_filter_pred(unpicked(), i);
        assert(u.contains(u[i]));
        s.lemma_filter_contains_rev(unpicked(), u[i]);
        let a = choose|a: int| 0 <= a < s.len() && s[a] == u[i];
        assert(a != b);
    }
    lemma_filter_all(u, elsewhere(p));
}

/// A batch delete takes out exactly the visible selected entries and asks
/// for one delete per entry. Whatever order the results then arrive in, and
/// whichever of them fail, every other entry stays where it is.
pub proof fn lemma_batch_delete(
    s0: Fls,
    s1: Fls,
    tasks: Seq<Task>,
    msgs: Seq<Message>,
    runs: Seq<Fls>,
    outs: Seq<Seq<Task>>,
)
    requires
        s0.wf(),
        drained(s0.cache@).len() > 0,
        takes_action(s0, Action::Delete, s1, tasks),
        runs.len() == msgs.len() + 1,
        outs.len() == msgs.len(),
        runs[0] == s1,
        forall|i: int| 0 <= i < msgs.len() ==> is_batch_result(#[trigger] msgs[i], drained(s0.cache@)),
        forall|i: int|
            0 <= i < msgs.len() ==> handles(runs[i], #[trigger] msgs[i], runs[i + 1], outs[i]),
    ensures
        s1.cache@ == undrained(s0.cache@),
        tasks == drained(s0.cache@).map_values(|f: DisplayedFile| delete_task(f)),
        forall|i: int| 0 <= i < runs.len() ==> #[trigger] runs[i].cache@ == undrained(s0.cache@),
{
    let u = undrained(s0.cache@);
    assert forall|i: int| 0 <= i < runs.len() implies #[trigger] runs[i].cache@ == u by {
        lemma_batch_run(s0, msgs, runs, outs, i);
    }
}

proof fn lemma_batch_run(s0: Fls, msgs: Seq<Message>, runs: Seq<Fls>, outs: Seq<Seq<Task>>, n: int)
    requires
        distinct_paths(s0.cache@),
        runs.len() == msgs.len() + 1,
        outs.len() == msgs.len(),
        runs[0].cache@ == undrained(s0.cache@),
        forall|i: int| 0 <= i < msgs.len() ==> is_batch_result(#[trigger] msgs[i], drained(s0.cache@)),
        forall|i: int|
            0 <= i < msgs.len() ==> handles(runs[i], #[trigger] msgs[i], runs[i + 1], outs[i]),
        0 <= n < runs.len(),
    ensures
        runs[n].cache@ == undrained(s0.cache@),
    decreases n,
{
    if n > 0 {
        lemma_batch_run(s0, msgs, runs, outs, n - 1);
        let m = msgs[n - 1];
        assert(is_batch_result(m, drained(s0.cache@)));
        assert(handles(runs[n - 1], m, runs[n], outs[n - 1]));
        match m {
            Message::FileDeleteResult(Ok(p)) => {
                let j = choose|j: int|
                    0 <= j < drained(s0.cache@).len() && #[trigger] drained(s0.cache@)[j].data.path@
                        == p@;
                lemma_batch_paths_gone(s0.cache@, p@, j);
            },
            _ => {},
        }
    }
}

} // verus!
