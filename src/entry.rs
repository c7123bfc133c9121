use vstd::prelude::*;

verus! {

/// An immutable snapshot of one filesystem object.
///
/// Two entries are the same entry when their paths are equal.
#[derive(Debug)]
pub struct File {
    pub name: String,
    pub path: String,
    pub parent: String,
    pub depth: usize,
    pub is_dir: bool,
}

impl File {
    pub fn new(name: String, depth: usize, path: String, parent: String, is_dir: bool) -> (r: Self)
        ensures
            r.name@ == name@,
            r.depth == depth,
            r.path@ == path@,
            r.parent@ == parent@,
            r.is_dir == is_dir,
    {
        File { name, path, parent, depth, is_dir }
    }
}

impl Clone for File {
    fn clone(&self) -> (r: Self)
        ensures
            r == *self,
    {
        File {
            name: self.name.clone(),
            path: self.path.clone(),
            parent: self.parent.clone(),
            depth: self.depth,
            is_dir: self.is_dir,
        }
    }
}

impl PartialEq for File {
    fn eq(&self, other: &File) -> (r: bool) {
        self.path == other.path
    }
}

impl vstd::std_specs::cmp::PartialEqSpecImpl for File {
    open spec fn obeys_eq_spec() -> bool {
        true
    }

    open spec fn eq_spec(&self, other: &File) -> bool {
        self.path@ == other.path@
    }
}

/// The score every entry gets when no filter is active.
pub const MAX_SCORE: i64 = 0x7fff_ffff_ffff_ffff;

/// An entry of the store together with its current filter score and its
/// selection flag. It is visible exactly when its score is positive.
#[derive(Debug)]
pub struct DisplayedFile {
    pub curr_score: i64,
    pub data: File,
    pub selected: bool,
}

impl Clone for DisplayedFile {
    fn clone(&self) -> (r: Self)
        ensures
            r == *self,
    {
        DisplayedFile { curr_score: self.curr_score, data: self.data.clone(), selected: self.selected }
    }
}

impl DisplayedFile {
    pub open spec fn is_visible(self) -> bool {
        self.curr_score > 0
    }
}

impl From<File> for DisplayedFile {
    fn from(f: File) -> (r: Self) {
        DisplayedFile { data: f, curr_score: MAX_SCORE, selected: false }
    }
}

impl vstd::std_specs::convert::FromSpecImpl<File> for DisplayedFile {
    open spec fn obeys_from_spec() -> bool {
        true
    }

    open spec fn from_spec(f: File) -> DisplayedFile {
        DisplayedFile { data: f, curr_score: MAX_SCORE, selected: false }
    }
}

} // verus!
