//! The worklist: for each directory found under a root, whether it has been
//! fully handled. It is the only state that survives from one run to the next.
use vstd::prelude::*;
use crate::config::JxlArgs;

verus! {

/// One directory of the worklist.
#[derive(Clone, Debug)]
pub struct DirectoryState {
    pub path: String,
    pub done: bool,
}

/// Why the worklist refused an update.
#[derive(PartialEq, Eq, Structural, Clone, Copy, Debug)]
pub enum WorkListError {
    /// The directory was never recorded in the worklist.
    UnknownDirectory,
}

/// The worklist of one root. Each path appears at most once; a directory that
/// is recorded as done stays done.
pub struct WorkList {
    root: String,
    settings: JxlArgs,
    entries: Vec<DirectoryState>,
    states: Ghost<Map<Seq<char>, bool>>,
}

impl View for WorkList {
    type V = Map<Seq<char>, bool>;

    /// Each recorded directory, mapped to whether it is done.
    closed spec fn view(&self) -> Map<Seq<char>, bool> {
        self.states@
    }
}

/// Whether `p` is recorded as done in `m`.
pub open spec fn is_done(m: Map<Seq<char>, bool>, p: Seq<char>) -> bool {
    m.contains_key(p) && m[p]
}

impl WorkList {
    /// The root directory, as it was given.
    pub closed spec fn spec_root(&self) -> String {
        self.root
    }

    /// The settings in force when the worklist was created.
    pub closed spec fn spec_settings(&self) -> JxlArgs {
        self.settings
    }

    /// The root directory, as it was given.
    pub fn root(&self) -> (r: &String)
        ensures
            *r == self.spec_root(),
    {
        &self.root
    }

    /// The settings in force when the worklist was created.
    pub fn settings(&self) -> (r: &JxlArgs)
        ensures
            *r == self.spec_settings(),
    {
        &self.settings
    }

    /// The entries list each recorded directory once, with its state.
    pub closed spec fn wf(&self) -> bool {
        &&& forall|i: int|
            0 <= i < self.entries@.len() ==> self.states@.contains_key(
                #[trigger] self.entries@[i].path@,
            ) && self.states@[self.entries@[i].path@] == self.entries@[i].done
        &&& forall|p: Seq<char>|
            #[trigger] self.states@.contains_key(p) ==> exists|i: int|
                0 <= i < self.entries@.len() && #[trigger] self.entries@[i].path@ == p
        &&& forall|i: int, j: int|
            0 <= i < self.entries@.len() && 0 <= j < self.entries@.len() && i != j
                ==> #[trigger] self.entries@[i].path@ != #[trigger] self.entries@[j].path@
    }

    /// An empty worklist for `root`.
    pub fn new(root: String, settings: JxlArgs) -> (r: WorkList)
        ensures
            r.wf(),
            r@ == Map::<Seq<char>, bool>::empty(),
            r.spec_root() == root,
            r.spec_settings() == settings,
    {
        WorkList { root, settings, entries: Vec::new(), states: Ghost(Map::empty()) }
    }

    fn find(&self, path: &String) -> (r: Option<usize>)
        requires
            self.wf(),
        ensures
            match r {
                Some(i) => i < self.entries@.len() && self.entries@[i as int].path@ == path@,
                None => !self@.contains_key(path@),
            },
    {
        let mut i: usize = 0;
        while i < self.entries.len()
            invariant
                i <= self.entries@.len(),
                forall|j: int| 0 <= j < i ==> self.entries@[j].path@ != path@,
            decreases self.entries@.len() - i,
        {
            if self.entries[i].path == *path {
                return Some(i);
            }
            i = i + 1;
        }
        None
    }

    /// The recorded state of a directory: `None` when it was never recorded.
    pub fn status(&self, path: &String) -> (r: Option<bool>)
        requires
            self.wf(),
        ensures
            r == (if self@.contains_key(path@) {
                Some(self@[path@])
            } else {
                None
            }),
    {
        match self.find(path) {
            Some(i) => Some(self.entries[i].done),
            None => None,
        }
    }

    /// Records a directory that the walker found, as pending when it is new.
    /// Returns whether it still needs work, that is, whether it is not done.
    pub fn observe(&mut self, path: String) -> (r: bool)
        requires
            old(self).wf(),
        ensures
            final(self).wf(),
            r == !is_done(old(self)@, path@),
            final(self)@ == (if old(self)@.contains_key(path@) {
                old(self)@
            } else {
                old(self)@.insert(path@, false)
            }),
            final(self).spec_root() == old(self).spec_root(),
            final(self).spec_settings() == old(self).spec_settings(),
    {
        match self.find(&path) {
            Some(i) => !self.entries[i].done,
            None => {
                let ghost p = path@;
                let ghost before = self.entries@;
                self.entries.push(DirectoryState { path, done: false });
                self.states = Ghost(self.states@.insert(p, false));
                assert forall|q: Seq<char>| #[trigger] self.states@.contains_key(q) implies exists|
                    i: int,
                |
                    0 <= i < self.entries@.len() && #[trigger] self.entries@[i].path@ == q by {
                    if q != p {
                        let i = choose|i: int|
                            0 <= i < before.len() && #[trigger] before[i].path@ == q;
                        assert(self.entries@[i].path@ == q);
                    } else {
                        assert(self.entries@[before.len() as int].path@ == q);
                    }
                }
                true
            },
        }
    }

    /// Records the state of a directory, replacing what was recorded before.
    /// This is how a persisted worklist is brought back.
    pub fn set_entry(&mut self, path: String, done: bool)
        requires
            old(self).wf(),
        ensures
            final(self).wf(),
            final(self)@ == old(self)@.insert(path@, done),
            final(self).spec_root() == old(self).spec_root(),
            final(self).spec_settings() == old(self).spec_settings(),
    {
        let ghost p = path@;
        let ghost before = self.entries@;
        match self.find(&path) {
            Some(i) => {
                self.entries.set(i, DirectoryState { path, done });
                self.states = Ghost(self.states@.insert(p, done));
                assert forall|q: Seq<char>| #[trigger] self.states@.contains_key(q) implies exists|
                    j: int,
                |
                    0 <= j < self.entries@.len() && #[trigger] self.entries@[j].path@ == q by {
                    let j = choose|j: int|
                        0 <= j < before.len() && #[trigger] before[j].path@ == q;
                    assert(self.entries@[j].path@ == q);
                }
            },
            None => {
                self.entries.push(DirectoryState { path, done });
                self.states = Ghost(self.states@.insert(p, done));
                assert forall|q: Seq<char>| #[trigger] self.states@.contains_key(q) implies exists|
                    i: int,
                |
                    0 <= i < self.entries@.len() && #[trigger] self.entries@[i].path@ == q by {
                    if q != p {
                        let i = choose|i: int|
                            0 <= i < before.len() && #[trigger] before[i].path@ == q;
                        assert(self.entries@[i].path@ == q);
                    } else {
                        assert(self.entries@[before.len() as int].path@ == q);
                    }
                }
            },
        }
    }

    /// Records a recorded directory as done. A directory that was never
    /// recorded is refused, and the worklist is left as it was.
    pub fn mark_done(&mut self, path: &String) -> (r: Result<(), WorkListError>)
        requires
            old(self).wf(),
        ensures
            final(self).wf(),
            r is Ok <==> old(self)@.contains_key(path@),
            r is Ok ==> final(self)@ == old(self)@.insert(path@, true),
            r is Err ==> final(self)@ == old(self)@ && r == Err::<(), _>(
                WorkListError::UnknownDirectory,
            ),
            final(self).spec_root() == old(self).spec_root(),
            final(self).spec_settings() == old(self).spec_settings(),
    {
        match self.find(path) {
            Some(_) => {
                self.set_entry(path.clone(), true);
                Ok(())
            },
            None => Err(WorkListError::UnknownDirectory),
        }
    }

    /// The recorded directories, each once, with their states.
    pub fn entries(&self) -> (r: &Vec<DirectoryState>)
        requires
            self.wf(),
        ensures
            forall|i: int|
                0 <= i < r@.len() ==> self@.contains_key(#[trigger] r@[i].path@) && self@[r@[i].path@]
                    == r@[i].done,
            forall|p: Seq<char>|
                #[trigger] self@.contains_key(p) ==> exists|i: int|
                    0 <= i < r@.len() && #[trigger] r@[i].path@ == p,
    {
        &self.entries
    }
}

} // verus!
