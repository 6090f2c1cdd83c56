//! Observers: where the set of changed directories comes from.
use crate::path::{DirPath, PathView};
use vstd::prelude::*;

pub mod all;
pub mod git;

verus! {

/// A source of changed directories for a run.
pub trait Observer {
    fn observe(&self) -> Vec<DirPath>;
}

/// The paths in `s`.
pub open spec fn path_set(s: Seq<DirPath>) -> Set<PathView> {
    Set::new(|p: PathView| exists|k: int| 0 <= k < s.len() && s[k]@ == p)
}

/// No path appears twice in `s`.
pub open spec fn distinct_paths(s: Seq<DirPath>) -> bool {
    forall|i: int, j: int| 0 <= i < j < s.len() ==> s[i]@ != s[j]@
}

/// Adds `p` to `out` unless the same path is already there.
pub fn add_path(out: &mut Vec<DirPath>, p: DirPath)
    requires
        distinct_paths(old(out)@),
    ensures
        path_set(final(out)@) == path_set(old(out)@).insert(p@),
        distinct_paths(final(out)@),
{
    let ghost pv = p@;
    let ghost before = out@;
    let mut k: usize = 0;
    while k < out.len()
        invariant
            k <= out.len(),
            out@ == before,
            pv == p@,
            distinct_paths(before),
            forall|m: int| 0 <= m < k ==> out@[m]@ != pv,
        decreases out.len() - k,
    {
        let here = out[k].same(&p);
        assert(out@[k as int] == before[k as int]);
        if here {
            assert(before[k as int]@ == pv);
            assert(path_set(before).contains(pv));
            assert(path_set(before) =~= path_set(before).insert(pv));
            return;
        }
        k = k + 1;
    }
    out.push(p);
    assert forall|q: PathView| path_set(out@).contains(q) <==> path_set(before).insert(pv).contains(q) by {
        if path_set(out@).contains(q) {
            let m = choose|m: int| 0 <= m < out@.len() && out@[m]@ == q;
            if m < before.len() {
                assert(before[m] == out@[m]);
            }
        }
        if path_set(before).contains(q) {
            let m = choose|m: int| 0 <= m < before.len() && before[m]@ == q;
            assert(out@[m] == before[m]);
        }
        if q == pv {
            assert(out@[before.len() as int]@ == q);
        }
    }
    assert(path_set(out@) =~= path_set(before).insert(pv));
}

} // verus!
