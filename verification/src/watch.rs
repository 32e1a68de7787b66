//! Which theme paths are watched, and when they have to be watched anew.

use vstd::prelude::*;

use crate::text::{same, texts_of};

verus! {

/// What happened to a watched path.
#[derive(Debug, Clone, Copy, PartialEq, Eq, Structural)]
pub enum Change {
    Access,
    Create,
    Modify,
    Remove,
    Other,
}

/// Tells whether a change may have given a theme other colors.
pub fn retints(change: Change) -> (r: bool)
    ensures
        r == (change == Change::Create || change == Change::Modify || change == Change::Remove),
{
    match change {
        Change::Create | Change::Modify | Change::Remove => true,
        Change::Access | Change::Other => false,
    }
}

/// A path has disappeared, given which of the paths still exist.
pub open spec fn gone(present: Seq<bool>, i: int) -> bool {
    0 <= i < present.len() && !present[i]
}

/// Some path has disappeared.
pub open spec fn any_gone(present: Seq<bool>) -> bool {
    exists|i: int| gone(present, i)
}

/// The watched paths. A theme switch replaces whole directories, which drops
/// their watches, so the paths are watched anew when one has disappeared.
#[derive(Debug)]
pub struct WatchList {
    watched: Vec<String>,
}

impl WatchList {
    /// The watched paths, in the order they were added.
    pub closed spec fn paths(self) -> Seq<Seq<char>> {
        texts_of(self.watched@)
    }

    /// No path is watched twice.
    pub open spec fn wf(self) -> bool {
        self.paths().no_duplicates()
    }

    pub fn new() -> (r: WatchList)
        ensures
            r.wf(),
            r.paths().len() == 0,
    {
        WatchList { watched: Vec::new() }
    }

    pub fn len(&self) -> (r: usize)
        ensures
            r == self.paths().len(),
    {
        self.watched.len()
    }

    pub fn path(&self, i: usize) -> (r: &str)
        requires
            i < self.paths().len(),
        ensures
            r@ == self.paths()[i as int],
    {
        self.watched[i].as_str()
    }

    /// Tells whether a path is to be watched: it exists and is not watched yet.
    pub fn wants(&self, path: &str, exists: bool) -> (r: bool)
        ensures
            r == (exists && !self.paths().contains(path@)),
    {
        if !exists {
            return false;
        }
        let mut i: usize = 0;
        while i < self.watched.len()
            invariant
                i <= self.watched@.len(),
                forall|j: int| 0 <= j < i ==> #[trigger] self.paths()[j] != path@,
            decreases self.watched@.len() - i,
        {
            if same(self.watched[i].as_str(), path) {
                assert(self.paths()[i as int] == path@);
                return false;
            }
            i = i + 1;
        }
        true
    }

    /// Notes that a path is watched now.
    pub fn add(&mut self, path: &str)
        requires
            old(self).wf(),
            !old(self).paths().contains(path@),
        ensures
            final(self).wf(),
            final(self).paths() == old(self).paths().push(path@),
    {
        self.watched.push(path.to_owned());
        assert(self.paths() =~= old(self).paths().push(path@));
    }

    /// Gives up all paths, which are then to be unwatched.
    pub fn take(&mut self) -> (r: Vec<String>)
        ensures
            final(self).wf(),
            final(self).paths().len() == 0,
            texts_of(r@) == old(self).paths(),
    {
        let mut taken: Vec<String> = Vec::new();
        taken.append(&mut self.watched);
        assert(texts_of(taken@) =~= old(self).paths());
        taken
    }

    /// Tells whether the paths have to be watched anew, given which of them
    /// still exist: one has disappeared.
    pub fn needs_rearm(&self, present: &Vec<bool>) -> (r: bool)
        requires
            present@.len() == self.paths().len(),
        ensures
            r == exists|i: int| 0 <= i < present@.len() && !#[trigger] present@[i],
            r == any_gone(present@),
    {
        let mut i: usize = 0;
        while i < present.len()
            invariant
                i <= present@.len(),
                forall|j: int| 0 <= j < i ==> #[trigger] present@[j],
            decreases present@.len() - i,
        {
            if !present[i] {
                assert(gone(present@, i as int));
                return true;
            }
            i = i + 1;
        }
        false
    }
}

impl Default for WatchList {
    fn default() -> (r: WatchList)
        ensures
            r.wf(),
            r.paths().len() == 0,
    {
        WatchList::new()
    }
}

} // verus!
