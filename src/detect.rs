//! Resolution: from changed directories to the build units that must run.
use crate::build_tools::{
    container_marker, pipeline_marker, recognize, recognize_spec, BuildConfig, BuildTools,
    ToolKind, UnitView,
};
use crate::files::FileSet;
use crate::observe::path_set;
use crate::path::{
    child_spec, is_ancestor, join_spec, lemma_parent_stays_under, parent_spec, DirPath, PathView,
};
use vstd::prelude::*;

verus! {

/// The unit found by walking up from `cursor`: the first directory, from
/// `cursor` upward, where a recognizer matches. The walk looks only at
/// directories at or under `root`, and stops after `root`.
pub open spec fn walk_spec(files: Set<PathView>, root: PathView, cursor: PathView) -> Option<
    UnitView,
>
    decreases cursor.1.len(),
{
    if !is_ancestor(root, cursor) {
        None
    } else {
        match recognize_spec(files, cursor) {
            Some(u) => Some(u),
            None => if cursor == root || cursor.1.len() == 0 {
                None
            } else {
                walk_spec(files, root, parent_spec(cursor))
            },
        }
    }
}

/// How many directories the walk from `cursor` looks at.
pub open spec fn walk_visits(files: Set<PathView>, root: PathView, cursor: PathView) -> nat
    decreases cursor.1.len(),
{
    if !is_ancestor(root, cursor) {
        0
    } else {
        match recognize_spec(files, cursor) {
            Some(_) => 1,
            None => if cursor == root || cursor.1.len() == 0 {
                1
            } else {
                1 + walk_visits(files, root, parent_spec(cursor))
            },
        }
    }
}

/// The units found from each changed directory, joined onto `root`.
pub open spec fn resolve_spec(files: Set<PathView>, root: PathView, changed: Seq<PathView>) -> Set<
    UnitView,
> {
    Set::new(
        |u: UnitView|
            exists|i: int|
                0 <= i < changed.len() && walk_spec(files, root, join_spec(root, changed[i]))
                    == Some(u),
    )
}

/// The identities of the units in `s`.
pub open spec fn units(s: Seq<BuildTools>) -> Set<UnitView> {
    Set::new(|u: UnitView| exists|k: int| 0 <= k < s.len() && s[k].unit() == u)
}

/// No two units in `s` have the same identity.
pub open spec fn distinct_units(s: Seq<BuildTools>) -> bool {
    forall|i: int, j: int| 0 <= i < j < s.len() ==> s[i].unit() != s[j].unit()
}

/// The views of a list of paths.
pub open spec fn path_views(s: Seq<DirPath>) -> Seq<PathView> {
    s.map_values(|d: DirPath| d@)
}

/// Walks up from `root` joined with `changed_dir` toward `root`, and returns
/// the first unit that the recognizers find. A starting directory that is not
/// under `root` finds nothing.
pub fn walk_to_build_root(root: &DirPath, changed_dir: &DirPath, files: &FileSet) -> (r: Option<
    BuildTools,
>)
    ensures
        r matches Some(u) ==> (Some(u.unit()) == walk_spec(
            files@,
            root@,
            join_spec(root@, changed_dir@),
        ) && u.spec_config().dependencies@.len() == 0 && is_ancestor(root@, u.unit().1)),
        r matches Some(u) ==> (u is Docker ==> u->Docker_0.dockerfile@ == container_marker()),
        r is None ==> walk_spec(files@, root@, join_spec(root@, changed_dir@)) is None,
{
    let mut cursor = root.join(changed_dir);
    proof {
        lemma_walk_bounded(files@, root@, cursor@);
    }
    loop
        invariant
            walk_spec(files@, root@, cursor@) == walk_spec(
                files@,
                root@,
                join_spec(root@, changed_dir@),
            ),
        decreases cursor@.1.len(),
    {
        if !cursor.starts_with(root) {
            return None;
        }
        let config = BuildConfig::new(cursor.duplicate());
        let found = recognize(config, files);
        if found.is_some() {
            return found;
        }
        if cursor.same(root) {
            return None;
        }
        if !cursor.pop() {
            return None;
        }
    }
}

/// Whether some unit in `out` has the identity of `u`.
fn holds_unit(out: &Vec<BuildTools>, u: &BuildTools) -> (r: bool)
    ensures
        r == units(out@).contains(u.unit()),
{
    let mut k: usize = 0;
    while k < out.len()
        invariant
            k <= out.len(),
            forall|m: int| 0 <= m < k ==> out@[m].unit() != u.unit(),
        decreases out.len() - k,
    {
        if out[k].same_unit(u) {
            return true;
        }
        k = k + 1;
    }
    false
}

/// Resolves every changed directory under `root` to its build unit, and keeps
/// each unit once.
pub fn detect_build_roots(root: &DirPath, changed_dirs: &Vec<DirPath>, files: &FileSet) -> (r: Vec<
    BuildTools,
>)
    ensures
        units(r@) == resolve_spec(files@, root@, path_views(changed_dirs@)),
        distinct_units(r@),
        forall|k: int|
            0 <= k < r@.len() ==> (#[trigger] r@[k]).spec_config().dependencies@.len() == 0
                && is_ancestor(root@, r@[k].unit().1) && (r@[k] is Docker
                ==> r@[k]->Docker_0.dockerfile@ == container_marker()),
{
    let ghost changed = path_views(changed_dirs@);
    let mut out: Vec<BuildTools> = Vec::new();
    let mut i: usize = 0;
    assert(units(out@) =~= resolve_spec(files@, root@, changed.subrange(0, 0)));
    while i < changed_dirs.len()
        invariant
            i <= changed_dirs.len(),
            changed == path_views(changed_dirs@),
            units(out@) == resolve_spec(files@, root@, changed.subrange(0, i as int)),
            distinct_units(out@),
            forall|k: int|
                0 <= k < out@.len() ==> (#[trigger] out@[k]).spec_config().dependencies@.len() == 0
                    && is_ancestor(root@, out@[k].unit().1) && (out@[k] is Docker
                    ==> out@[k]->Docker_0.dockerfile@ == container_marker()),
        decreases changed_dirs.len() - i,
    {
        let found = walk_to_build_root(root, &changed_dirs[i], files);
        let ghost before = out@;
        let ghost w = walk_spec(files@, root@, join_spec(root@, changed[i as int]));
        let ghost next = changed.subrange(0, i + 1);
        assert(next.subrange(0, i as int) =~= changed.subrange(0, i as int));
        assert(next[i as int] == changed[i as int]);
        match found {
            Some(u) => {
                if !holds_unit(&out, &u) {
                    out.push(u);
                    assert(out@[before.len() as int].unit() == w->Some_0);
                    assert forall|x: UnitView| units(out@).contains(x) <==> units(before).contains(x)
                        || x == w->Some_0 by {
                        if units(out@).contains(x) {
                            let k = choose|k: int| 0 <= k < out@.len() && out@[k].unit() == x;
                            if k < before.len() {
                                assert(before[k] == out@[k]);
                            }
                        }
                        if units(before).contains(x) {
                            let k = choose|k: int| 0 <= k < before.len() && before[k].unit() == x;
                            assert(out@[k] == before[k]);
                        }
                    }
                }
                assert forall|x: UnitView| #[trigger] units(out@).contains(x) <==> resolve_spec(
                    files@,
                    root@,
                    next,
                ).contains(x) by {
                    if x == w->Some_0 {
                        assert(walk_spec(files@, root@, join_spec(root@, next[i as int])) == Some(x));
                    }
                    if resolve_spec(files@, root@, next).contains(x) {
                        let j = choose|j: int|
                            0 <= j < next.len() && walk_spec(files@, root@, join_spec(root@, next[j]))
                                == Some(x);
                        if j < i {
                            assert(next[j] == changed.subrange(0, i as int)[j]);
                        }
                    }
                    if resolve_spec(files@, root@, changed.subrange(0, i as int)).contains(x) {
                        let j = choose|j: int|
                            0 <= j < i && walk_spec(
                                files@,
                                root@,
                                join_spec(root@, changed.subrange(0, i as int)[j]),
                            ) == Some(x);
                        assert(next[j] == changed.subrange(0, i as int)[j]);
                    }
                }
            },
            None => {
                assert forall|x: UnitView| #[trigger] units(out@).contains(x) <==> resolve_spec(
                    files@,
                    root@,
                    next,
                ).contains(x) by {
                    if resolve_spec(files@, root@, next).contains(x) {
                        let j = choose|j: int|
                            0 <= j < next.len() && walk_spec(files@, root@, join_spec(root@, next[j]))
                                == Some(x);
                        if j < i {
                            assert(next[j] == changed.subrange(0, i as int)[j]);
                        }
                    }
                    if resolve_spec(files@, root@, changed.subrange(0, i as int)).contains(x) {
                        let j = choose|j: int|
                            0 <= j < i && walk_spec(
                                files@,
                                root@,
                                join_spec(root@, changed.subrange(0, i as int)[j]),
                            ) == Some(x);
                        assert(next[j] == changed.subrange(0, i as int)[j]);
                    }
                }
            },
        }
        assert(units(out@) =~= resolve_spec(files@, root@, next));
        i = i + 1;
    }
    assert(changed.subrange(0, changed_dirs.len() as int) =~= changed);
    out
}

/// `c` is one of the directories that a walk from `cursor` can reach: none
/// when `cursor` is not under `root`; else `cursor` itself, or, unless
/// `cursor` is `root` or has no component, one reachable from the level above.
pub open spec fn visits(root: PathView, cursor: PathView, c: PathView) -> bool
    decreases cursor.1.len(),
{
    is_ancestor(root, cursor) && (c == cursor || (!(cursor == root || cursor.1.len() == 0)
        && visits(root, parent_spec(cursor), c)))
}

/// The marker files that a walk from some changed directory can look for.
pub open spec fn candidates_spec(root: PathView, changed: Seq<PathView>) -> Set<PathView> {
    Set::new(
        |p: PathView|
            exists|i: int, c: PathView|
                0 <= i < changed.len() && visits(root, join_spec(root, changed[i]), c) && (p
                    == child_spec(c, pipeline_marker()) || p == child_spec(c, container_marker())),
    )
}

proof fn lemma_visits_trans(root: PathView, a: PathView, b: PathView, c: PathView)
    requires
        visits(root, a, b),
        visits(root, b, c),
    ensures
        visits(root, a, c),
    decreases a.1.len(),
{
    if b != a {
        lemma_visits_trans(root, parent_spec(a), b, c);
    }
}

/// The walk reads only the marker files of the directories it can reach: two
/// snapshots that agree on those files give the same unit.
pub proof fn lemma_walk_reads_candidates(
    files: Set<PathView>,
    other: Set<PathView>,
    root: PathView,
    cursor: PathView,
)
    requires
        forall|c: PathView|
            #![trigger visits(root, cursor, c)]
            visits(root, cursor, c) ==> (files.contains(child_spec(c, pipeline_marker()))
                == other.contains(child_spec(c, pipeline_marker())) && files.contains(
                child_spec(c, container_marker()),
            ) == other.contains(child_spec(c, container_marker()))),
    ensures
        walk_spec(files, root, cursor) == walk_spec(other, root, cursor),
    decreases cursor.1.len(),
{
    if !is_ancestor(root, cursor) {
        return;
    }
    assert(cursor.1.subrange(0, cursor.1.len() as int) =~= cursor.1);
    assert(visits(root, cursor, cursor));
    if !(cursor == root || cursor.1.len() == 0) {
        let up = parent_spec(cursor);
        assert forall|c: PathView| #![trigger visits(root, up, c)] visits(root, up, c) implies visits(
            root,
            cursor,
            c,
        ) by {}
        lemma_walk_reads_candidates(files, other, root, up);
    }
}

/// Every marker file that a walk from one of `changed_dirs` under `root` can
/// look for, and nothing else.
pub fn marker_candidates(root: &DirPath, changed_dirs: &Vec<DirPath>) -> (r: Vec<DirPath>)
    ensures
        path_set(r@) == candidates_spec(root@, path_views(changed_dirs@)),
{
    let ghost changed = path_views(changed_dirs@);
    let mut out: Vec<DirPath> = Vec::new();
    let mut i: usize = 0;
    assert(path_set(out@) =~= candidates_spec(root@, changed.subrange(0, 0)));
    while i < changed_dirs.len()
        invariant
            i <= changed_dirs.len(),
            changed == path_views(changed_dirs@),
            path_set(out@) == candidates_spec(root@, changed.subrange(0, i as int)),
        decreases changed_dirs.len() - i,
    {
        let ghost prev = changed.subrange(0, i as int);
        let ghost next = changed.subrange(0, i + 1);
        let ghost start = join_spec(root@, changed[i as int]);
        let ghost base = path_set(out@);
        let mut cursor = root.join(&changed_dirs[i]);
        loop
            invariant
                cursor@ == start || visits(root@, start, cursor@),
                forall|p: PathView|
                    path_set(out@).contains(p) ==> base.contains(p) || exists|c: PathView|
                        visits(root@, start, c) && (p == child_spec(c, pipeline_marker()) || p
                            == child_spec(c, container_marker())),
                base.subset_of(path_set(out@)),
                forall|c: PathView|
                    #![trigger visits(root@, start, c)]
                    visits(root@, start, c) && !visits(root@, cursor@, c) ==> path_set(
                        out@,
                    ).contains(child_spec(c, pipeline_marker())) && path_set(out@).contains(
                        child_spec(c, container_marker()),
                    ),
            ensures
                cursor@ == start || visits(root@, start, cursor@),
                !is_ancestor(root@, cursor@) || ((cursor@ == root@ || cursor@.1.len() == 0)
                    && path_set(out@).contains(child_spec(cursor@, pipeline_marker()))
                    && path_set(out@).contains(child_spec(cursor@, container_marker()))),
            decreases cursor@.1.len(),
        {
            if !cursor.starts_with(root) {
                break;
            }
            assert(cursor@.1.subrange(0, cursor@.1.len() as int) =~= cursor@.1);
            assert(visits(root@, cursor@, cursor@));
            assert(visits(root@, start, cursor@));
            let ghost before = out@;
            let pm = cursor.child(".gitlab-ci.yml");
            let cm = cursor.child("Dockerfile");
            out.push(pm);
            out.push(cm);
            assert(out@[before.len() as int]@ == child_spec(cursor@, pipeline_marker()));
            assert(out@[before.len() as int + 1]@ == child_spec(cursor@, container_marker()));
            assert forall|p: PathView| path_set(before).contains(p) implies path_set(out@).contains(
                p,
            ) by {
                let k = choose|k: int| 0 <= k < before.len() && before[k]@ == p;
                assert(out@[k] == before[k]);
            }
            assert forall|p: PathView| path_set(out@).contains(p) implies path_set(before).contains(
                p,
            ) || p == child_spec(cursor@, pipeline_marker()) || p == child_spec(
                cursor@,
                container_marker(),
            ) by {
                let k = choose|k: int| 0 <= k < out@.len() && out@[k]@ == p;
                if k < before.len() {
                    assert(out@[k] == before[k]);
                }
            }
            if cursor.same(root) {
                break;
            }
            let ghost here = cursor@;
            if !cursor.pop() {
                break;
            }
            proof {
                lemma_parent_stays_under(root@, here);
            }
            assert forall|c: PathView|
                #![trigger visits(root@, start, c)]
                visits(root@, start, c) && !visits(root@, cursor@, c) implies path_set(
                out@,
            ).contains(child_spec(c, pipeline_marker())) && path_set(out@).contains(
                child_spec(c, container_marker()),
            ) by {
                if c != here {
                    assert(!visits(root@, here, c));
                }
            }
            assert(cursor@.1.subrange(0, cursor@.1.len() as int) =~= cursor@.1);
            assert(visits(root@, cursor@, cursor@));
            assert(visits(root@, here, cursor@));
            proof {
                lemma_visits_trans(root@, start, here, cursor@);
            }
        }
        assert forall|c: PathView| #![trigger visits(root@, start, c)] visits(root@, start, c) implies path_set(
            out@,
        ).contains(child_spec(c, pipeline_marker())) && path_set(out@).contains(
            child_spec(c, container_marker()),
        ) by {
            if visits(root@, cursor@, c) {
                if c != cursor@ {
                    assert(cursor@ == root@ || cursor@.1.len() == 0);
                }
            }
        }
        assert(next[i as int] == changed[i as int]);
        assert forall|p: PathView| #[trigger] path_set(out@).contains(p) <==> candidates_spec(
            root@,
            next,
        ).contains(p) by {
            if candidates_spec(root@, next).contains(p) {
                let (j, c) = choose|j: int, c: PathView|
                    0 <= j < next.len() && visits(root@, join_spec(root@, next[j]), c) && (p
                        == child_spec(c, pipeline_marker()) || p == child_spec(
                        c,
                        container_marker(),
                    ));
                if j < i {
                    assert(next[j] == prev[j]);
                    assert(candidates_spec(root@, prev).contains(p));
                } else {
                    assert(visits(root@, start, c));
                }
            }
            if path_set(out@).contains(p) {
                if base.contains(p) {
                    let (j, c) = choose|j: int, c: PathView|
                        0 <= j < prev.len() && visits(root@, join_spec(root@, prev[j]), c) && (p
                            == child_spec(c, pipeline_marker()) || p == child_spec(
                            c,
                            container_marker(),
                        ));
                    assert(next[j] == prev[j]);
                } else {
                    let c = choose|c: PathView|
                        visits(root@, start, c) && (p == child_spec(c, pipeline_marker()) || p
                            == child_spec(c, container_marker()));
                    assert(visits(root@, join_spec(root@, next[i as int]), c));
                }
            }
        }
        assert(path_set(out@) =~= candidates_spec(root@, next));
        i = i + 1;
    }
    assert(changed.subrange(0, changed_dirs.len() as int) =~= changed);
    out
}

/// The walk from `cursor` looks at no more directories than the depth of
/// `cursor` below `root` plus one, and at none when `cursor` is not under
/// `root`. A unit found lies on the way: at `cursor` or above it, and at
/// `root` or below it.
pub proof fn lemma_walk_bounded(files: Set<PathView>, root: PathView, cursor: PathView)
    ensures
        walk_visits(files, root, cursor) <= cursor.1.len() + 1,
        is_ancestor(root, cursor) ==> walk_visits(files, root, cursor) <= cursor.1.len()
            - root.1.len() + 1,
        !is_ancestor(root, cursor) ==> walk_visits(files, root, cursor) == 0,
        walk_spec(files, root, cursor) matches Some(u) ==> (is_ancestor(u.1, cursor)
            && is_ancestor(root, u.1)),
    decreases cursor.1.len(),
{
    if !is_ancestor(root, cursor) {
        return;
    }
    assert(cursor.1.subrange(0, cursor.1.len() as int) =~= cursor.1);
    if recognize_spec(files, cursor) is None && !(cursor == root || cursor.1.len() == 0) {
        let up = parent_spec(cursor);
        lemma_parent_stays_under(root, cursor);
        lemma_walk_bounded(files, root, up);
        if let Some(u) = walk_spec(files, root, up) {
            assert(cursor.1.subrange(0, u.1.1.len() as int) =~= up.1.subrange(0, u.1.1.len() as int));
        }
    }
}

/// Resolution depends only on the root, the changed directories and the
/// marker files that the walks can look for: two filesystem states that agree
/// on those files, identical ones among them, give the same units.
pub proof fn lemma_resolution_repeatable(
    files: Set<PathView>,
    other: Set<PathView>,
    root: PathView,
    changed: Seq<PathView>,
)
    requires
        forall|p: PathView|
            #[trigger] candidates_spec(root, changed).contains(p) ==> (files.contains(p)
                == other.contains(p)),
    ensures
        resolve_spec(files, root, changed) == resolve_spec(other, root, changed),
{
    assert forall|i: int| 0 <= i < changed.len() implies walk_spec(
        files,
        root,
        join_spec(root, changed[i]),
    ) == walk_spec(other, root, join_spec(root, changed[i])) by {
        let start = join_spec(root, changed[i]);
        assert forall|c: PathView| #![trigger visits(root, start, c)] visits(root, start, c) implies (
        files.contains(child_spec(c, pipeline_marker())) == other.contains(
            child_spec(c, pipeline_marker()),
        ) && files.contains(child_spec(c, container_marker())) == other.contains(
            child_spec(c, container_marker()),
        )) by {
            assert(candidates_spec(root, changed).contains(child_spec(c, pipeline_marker())));
            assert(candidates_spec(root, changed).contains(child_spec(c, container_marker())));
        }
        lemma_walk_reads_candidates(files, other, root, start);
    }
    assert(resolve_spec(files, root, changed) =~= resolve_spec(other, root, changed));
}

/// A directory that holds both a pipeline marker and a container marker is
/// recognized as a pipeline, and a walk that reaches it under `root`
/// resolves to the pipeline unit.
pub proof fn lemma_pipeline_wins(files: Set<PathView>, root: PathView, dir: PathView)
    requires
        files.contains(child_spec(dir, pipeline_marker())),
        files.contains(child_spec(dir, container_marker())),
    ensures
        recognize_spec(files, dir) == Some((ToolKind::Pipeline, dir)),
        is_ancestor(root, dir) ==> walk_spec(files, root, dir) == Some((ToolKind::Pipeline, dir)),
{
}

/// Two changed directories whose walks end at the same unit give exactly one
/// unit in the result of `detect_build_roots`.
pub proof fn lemma_one_unit_per_marker(
    files: Set<PathView>,
    root: PathView,
    changed: Seq<PathView>,
    result: Seq<BuildTools>,
    i: int,
    j: int,
    u: UnitView,
)
    requires
        units(result) == resolve_spec(files, root, changed),
        distinct_units(result),
        0 <= i < changed.len(),
        0 <= j < changed.len(),
        walk_spec(files, root, join_spec(root, changed[i])) == Some(u),
        walk_spec(files, root, join_spec(root, changed[j])) == Some(u),
    ensures
        exists|k: int|
            0 <= k < result.len() && result[k].unit() == u && forall|m: int|
                0 <= m < result.len() && result[m].unit() == u ==> m == k,
{
    assert(resolve_spec(files, root, changed).contains(u));
    let k = choose|k: int| 0 <= k < result.len() && result[k].unit() == u;
    assert forall|m: int| 0 <= m < result.len() && result[m].unit() == u implies m == k by {
        if m < k {
            assert(result[m].unit() != result[k].unit());
        } else if k < m {
            assert(result[k].unit() != result[m].unit());
        }
    }
}

/// A changed directory that is the root itself, where the root holds no
/// marker, yields no unit.
pub proof fn lemma_root_without_marker(files: Set<PathView>, root: PathView, changed: PathView)
    requires
        join_spec(root, changed) == root,
        recognize_spec(files, root) is None,
    ensures
        walk_spec(files, root, join_spec(root, changed)) is None,
{
}

} // verus!
