//! The files that exist on disk, as far as marker lookups need them.
use crate::path::{DirPath, PathView};
use vstd::prelude::*;

verus! {

/// A snapshot of existing file paths. The walk reads the filesystem only
/// through this set, so equal snapshots give equal answers.
#[derive(Clone, Debug)]
pub struct FileSet {
    pub files: Vec<DirPath>,
}

impl View for FileSet {
    type V = Set<PathView>;

    open spec fn view(&self) -> Set<PathView> {
        Set::new(|p: PathView| exists|i: int| 0 <= i < self.files@.len() && self.files@[i]@ == p)
    }
}

impl FileSet {
    /// An empty snapshot.
    pub fn new() -> (r: FileSet)
        ensures
            r@ == Set::<PathView>::empty(),
    {
        let r = FileSet { files: Vec::new() };
        assert(r@ =~= Set::<PathView>::empty());
        r
    }

    /// Records that the file at `p` exists.
    pub fn insert(&mut self, p: DirPath)
        ensures
            final(self)@ == old(self)@.insert(p@),
    {
        let ghost pv = p@;
        let ghost before = self.files@;
        self.files.push(p);
        assert forall|q: PathView| final(self)@.contains(q) <==> old(self)@.insert(pv).contains(q) by {
            if old(self)@.contains(q) {
                let i = choose|i: int| 0 <= i < before.len() && before[i]@ == q;
                assert(self.files@[i] == before[i]);
            }
            if q == pv {
                assert(self.files@[before.len() as int]@ == q);
            }
            if final(self)@.contains(q) {
                let i = choose|i: int| 0 <= i < self.files@.len() && self.files@[i]@ == q;
                if i < before.len() {
                    assert(before[i] == self.files@[i]);
                }
            }
        }
        assert(final(self)@ =~= old(self)@.insert(pv));
    }

    /// Whether a file exists at `p`.
    pub fn contains(&self, p: &DirPath) -> (r: bool)
        ensures
            r == self@.contains(p@),
    {
        let mut i: usize = 0;
        while i < self.files.len()
            invariant
                i <= self.files.len(),
                forall|k: int| 0 <= k < i ==> self.files@[k]@ != p@,
            decreases self.files.len() - i,
        {
            if self.files[i].same(p) {
                return true;
            }
            i = i + 1;
        }
        false
    }
}

} // verus!
