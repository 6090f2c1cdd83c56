//! Change detection from version control, as a state machine. The caller
//! performs each action against the repository and hands back what happened;
//! the machine decides what comes next and what the outcome is.
use super::{add_path, distinct_paths, path_set};
use crate::build_tools::UnitView;
use crate::detect::resolve_spec;
use crate::path::{parent_spec, DirPath, PathView};
use vstd::prelude::*;

verus! {

/// Why detection found no changed directories.
#[derive(Clone, Copy, Debug, PartialEq, Eq, Hash, Structural)]
pub enum DetectError {
    /// The target could not be opened as a repository, is bare, or has no commits.
    InvalidRepository,
    /// The revision walk or the tree difference failed.
    Detection,
}

/// One entry of the revision walk that starts at the head reference.
#[derive(Clone, Copy, Debug, PartialEq, Eq, Hash, Structural)]
pub enum WalkEntry {
    /// The walk could not produce this entry.
    Unreadable,
    /// The entry does not resolve to a commit.
    NotACommit,
    /// The entry resolves to a commit.
    Commit,
}

/// Where detection stands.
#[derive(Clone, Copy, Debug, PartialEq, Eq, Hash, Structural)]
pub enum DetectState {
    Opening,
    Walking,
    Diffing,
    Done,
}

/// What happened when the caller performed the last action.
#[derive(Clone, Debug)]
pub enum GitEvent {
    /// The repository could not be opened.
    OpenFailed,
    /// The repository was opened; whether it is bare, and whether it has no commits.
    Opened { bare: bool, empty: bool },
    /// The next entry of the revision walk, or `None` when the walk has ended.
    Revision(Option<WalkEntry>),
    /// The new path of every file changed between the accepted commit and its first parent.
    Diffed(Vec<DirPath>),
    /// The action failed: no first parent, or a failure of the repository backend.
    Failed,
}

/// What the caller is to do next.
#[derive(Debug)]
pub enum GitAction {
    /// Open the repository and report whether it is bare or empty.
    OpenRepository,
    /// Read the next entry of the revision walk from the head reference.
    NextRevision,
    /// Diff the accepted commit against its first parent.
    DiffWithParent,
    /// Stop: the changed directories, or why there are none.
    Finish(Result<Vec<DirPath>, DetectError>),
}

/// What an action stands for: for the outcome, the set of directories.
pub enum ActionView {
    OpenRepository,
    NextRevision,
    DiffWithParent,
    Finish(Result<Set<PathView>, DetectError>),
}

impl View for GitAction {
    type V = ActionView;

    open spec fn view(&self) -> ActionView {
        match self {
            GitAction::OpenRepository => ActionView::OpenRepository,
            GitAction::NextRevision => ActionView::NextRevision,
            GitAction::DiffWithParent => ActionView::DiffWithParent,
            GitAction::Finish(Ok(v)) => ActionView::Finish(Ok(path_set(v@))),
            GitAction::Finish(Err(e)) => ActionView::Finish(Err(*e)),
        }
    }
}

/// The directories that hold the changed files: the parent of each path.
pub open spec fn parents_of(paths: Seq<DirPath>) -> Set<PathView> {
    Set::new(|p: PathView| exists|k: int| 0 <= k < paths.len() && parent_spec(paths[k]@) == p)
}

/// Every path names a file: it has at least one component.
pub open spec fn all_files(paths: Seq<DirPath>) -> bool {
    forall|k: int| 0 <= k < paths.len() ==> (#[trigger] paths[k])@.1.len() > 0
}

/// The state after `event` arrives in `state`.
pub open spec fn next_state(state: DetectState, event: GitEvent) -> DetectState {
    match (state, event) {
        (DetectState::Opening, GitEvent::Opened { bare: false, empty: false }) => DetectState::Walking,
        (DetectState::Walking, GitEvent::Revision(Some(WalkEntry::NotACommit))) => DetectState::Walking,
        (DetectState::Walking, GitEvent::Revision(Some(WalkEntry::Commit))) => DetectState::Diffing,
        _ => DetectState::Done,
    }
}

/// The action that follows `event` in `state`. A repository that cannot be
/// opened, is bare or is empty is invalid; revision entries that are not
/// commits are skipped and the first commit is taken; its changes are
/// coarsened to their directories; any other turn is a detection failure.
pub open spec fn next_action(state: DetectState, event: GitEvent) -> ActionView {
    match (state, event) {
        (DetectState::Opening, GitEvent::Opened { bare: false, empty: false }) => ActionView::NextRevision,
        (DetectState::Opening, _) => ActionView::Finish(Err(DetectError::InvalidRepository)),
        (DetectState::Walking, GitEvent::Revision(Some(WalkEntry::NotACommit))) => ActionView::NextRevision,
        (DetectState::Walking, GitEvent::Revision(Some(WalkEntry::Commit))) => ActionView::DiffWithParent,
        (DetectState::Diffing, GitEvent::Diffed(paths)) => ActionView::Finish(Ok(parents_of(paths@))),
        _ => ActionView::Finish(Err(DetectError::Detection)),
    }
}

/// The first state and action of detection.
pub fn start() -> (r: (DetectState, GitAction))
    ensures
        r.0 == DetectState::Opening,
        r.1@ == ActionView::OpenRepository,
{
    (DetectState::Opening, GitAction::OpenRepository)
}

/// The directory of each changed file, each directory once.
pub fn changed_directories(paths: &Vec<DirPath>) -> (r: Vec<DirPath>)
    requires
        all_files(paths@),
    ensures
        path_set(r@) == parents_of(paths@),
        distinct_paths(r@),
{
    let mut out: Vec<DirPath> = Vec::new();
    let mut i: usize = 0;
    assert(path_set(out@) =~= parents_of(paths@.subrange(0, 0)));
    while i < paths.len()
        invariant
            i <= paths.len(),
            all_files(paths@),
            path_set(out@) == parents_of(paths@.subrange(0, i as int)),
            distinct_paths(out@),
        decreases paths.len() - i,
    {
        let ghost next = paths@.subrange(0, i + 1);
        let ghost prev = paths@.subrange(0, i as int);
        let mut dir = paths[i].duplicate();
        assert(paths@[i as int]@.1.len() > 0);
        dir.pop();
        add_path(&mut out, dir);
        assert forall|p: PathView| #[trigger] path_set(out@).contains(p) <==> parents_of(
            next,
        ).contains(p) by {
            if parents_of(next).contains(p) {
                let k = choose|k: int| 0 <= k < next.len() && parent_spec(next[k]@) == p;
                if k < i {
                    assert(next[k] == prev[k]);
                }
            }
            if parents_of(prev).contains(p) {
                let k = choose|k: int| 0 <= k < prev.len() && parent_spec(prev[k]@) == p;
                assert(next[k] == prev[k]);
            }
            if p == parent_spec(paths@[i as int]@) {
                assert(next[i as int] == paths@[i as int]);
            }
        }
        assert(path_set(out@) =~= parents_of(next));
        i = i + 1;
    }
    assert(paths@.subrange(0, paths.len() as int) =~= paths@);
    out
}

/// One step of detection: the next state and the next action.
pub fn step(state: DetectState, event: GitEvent) -> (r: (DetectState, GitAction))
    requires
        event matches GitEvent::Diffed(paths) ==> all_files(paths@),
    ensures
        r.0 == next_state(state, event),
        r.1@ == next_action(state, event),
        r.1 matches GitAction::Finish(Ok(dirs)) ==> distinct_paths(dirs@),
{
    match state {
        DetectState::Opening => match event {
            GitEvent::Opened { bare: false, empty: false } => (
                DetectState::Walking,
                GitAction::NextRevision,
            ),
            _ => (DetectState::Done, GitAction::Finish(Err(DetectError::InvalidRepository))),
        },
        DetectState::Walking => match event {
            GitEvent::Revision(Some(WalkEntry::NotACommit)) => (
                DetectState::Walking,
                GitAction::NextRevision,
            ),
            GitEvent::Revision(Some(WalkEntry::Commit)) => (
                DetectState::Diffing,
                GitAction::DiffWithParent,
            ),
            _ => (DetectState::Done, GitAction::Finish(Err(DetectError::Detection))),
        },
        DetectState::Diffing => match event {
            GitEvent::Diffed(paths) => (
                DetectState::Done,
                GitAction::Finish(Ok(changed_directories(&paths))),
            ),
            _ => (DetectState::Done, GitAction::Finish(Err(DetectError::Detection))),
        },
        DetectState::Done => (DetectState::Done, GitAction::Finish(Err(DetectError::Detection))),
    }
}

/// A target that cannot be opened as a repository ends detection at once with
/// `InvalidRepository`. No later event brings any directory, and resolution
/// over no changed directory finds no unit: the run builds nothing.
pub proof fn lemma_not_a_repository(files: Set<PathView>, root: PathView)
    ensures
        next_state(DetectState::Opening, GitEvent::OpenFailed) == DetectState::Done,
        next_action(DetectState::Opening, GitEvent::OpenFailed) == ActionView::Finish(
            Err(DetectError::InvalidRepository),
        ),
        forall|e: GitEvent|
            next_state(DetectState::Done, e) == DetectState::Done && #[trigger] next_action(
                DetectState::Done,
                e,
            ) == ActionView::Finish(Err(DetectError::Detection)),
        resolve_spec(files, root, Seq::<PathView>::empty()) == Set::<UnitView>::empty(),
{
    assert(resolve_spec(files, root, Seq::<PathView>::empty()) =~= Set::<UnitView>::empty());
}

} // verus!
