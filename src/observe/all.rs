//! The observer that treats every directory under a root as changed.
use super::{add_path, distinct_paths, path_set};
use crate::path::{DirPath, PathView};
use vstd::prelude::*;

verus! {

/// One entry met by a recursive scan.
#[derive(Clone, Debug)]
pub enum ScanEntry {
    /// A directory at this path.
    Directory(DirPath),
    /// Anything else at this path.
    Other(DirPath),
    /// An entry that could not be read; the scan goes on past it.
    Failed,
}

/// The directories among `entries`.
pub open spec fn scanned_directories(entries: Seq<ScanEntry>) -> Set<PathView> {
    Set::new(
        |p: PathView|
            exists|k: int|
                0 <= k < entries.len() && entries[k] is Directory && entries[k]->Directory_0@
                    == p,
    )
}

/// Scans everything under `directory`.
#[derive(Clone, Debug)]
pub struct AllConfig {
    pub directory: DirPath,
}

impl AllConfig {
    /// The changed directories that a full scan reports: every directory that
    /// the scan of `self.directory` met, each once. Entries that are not
    /// directories, and entries that failed, are passed over.
    pub fn observe_entries(&self, entries: &Vec<ScanEntry>) -> (r: Vec<DirPath>)
        ensures
            path_set(r@) == scanned_directories(entries@),
            distinct_paths(r@),
    {
        let mut out: Vec<DirPath> = Vec::new();
        let mut i: usize = 0;
        assert(path_set(out@) =~= scanned_directories(entries@.subrange(0, 0)));
        while i < entries.len()
            invariant
                i <= entries.len(),
                path_set(out@) == scanned_directories(entries@.subrange(0, i as int)),
                distinct_paths(out@),
            decreases entries.len() - i,
        {
            let ghost next = entries@.subrange(0, i + 1);
            let ghost prev = entries@.subrange(0, i as int);
            assert forall|k: int| 0 <= k < i implies next[k] == prev[k] by {}
            match &entries[i] {
                ScanEntry::Directory(d) => {
                    add_path(&mut out, d.duplicate());
                    assert forall|p: PathView| #[trigger] path_set(out@).contains(p)
                        <==> scanned_directories(next).contains(p) by {
                        if scanned_directories(next).contains(p) {
                            let k = choose|k: int|
                                0 <= k < next.len() && next[k] is Directory && next[k]->Directory_0@
                                    == p;
                            if k < i {
                                assert(scanned_directories(prev).contains(p));
                            }
                        }
                        if scanned_directories(prev).contains(p) {
                            let k = choose|k: int|
                                0 <= k < prev.len() && prev[k] is Directory && prev[k]->Directory_0@
                                    == p;
                            assert(next[k] == prev[k]);
                        }
                        if p == d@ {
                            assert(next[i as int] == entries@[i as int]);
                        }
                    }
                },
                _ => {
                    assert forall|p: PathView| #[trigger] path_set(out@).contains(p)
                        <==> scanned_directories(next).contains(p) by {
                        if scanned_directories(next).contains(p) {
                            let k = choose|k: int|
                                0 <= k < next.len() && next[k] is Directory && next[k]->Directory_0@
                                    == p;
                            if k < i {
                                assert(scanned_directories(prev).contains(p));
                            }
                        }
                        if scanned_directories(prev).contains(p) {
                            let k = choose|k: int|
                                0 <= k < prev.len() && prev[k] is Directory && prev[k]->Directory_0@
                                    == p;
                            assert(next[k] == prev[k]);
                        }
                    }
                },
            }
            assert(path_set(out@) =~= scanned_directories(next));
            i = i + 1;
        }
        assert(entries@.subrange(0, entries.len() as int) =~= entries@);
        out
    }
}

} // verus!
