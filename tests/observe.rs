use std::collections::HashSet;

use weave::observe::add_path;
use weave::observe::all::{AllConfig, ScanEntry};
use weave::observe::git::{
    changed_directories, start, step, DetectError, DetectState, GitAction, GitEvent, WalkEntry,
};
use weave::path::DirPath;

fn p(s: &str) -> DirPath {
    DirPath::parse(s)
}

fn set(v: Vec<DirPath>) -> HashSet<DirPath> {
    v.into_iter().collect()
}

fn finished(a: GitAction) -> Result<Vec<DirPath>, DetectError> {
    match a {
        GitAction::Finish(r) => r,
        other => panic!("not finished: {:?}", other),
    }
}

#[test]
fn test_is_can_find_all_directories() {
    let all_config: AllConfig = AllConfig { directory: p("./examples") };
    let entries = vec![
        ScanEntry::Directory(p("./examples")),
        ScanEntry::Directory(p("./examples/dockerfile")),
        ScanEntry::Other(p("./examples/dockerfile/Dockerfile")),
        ScanEntry::Directory(p("./examples/gitlab-ci")),
        ScanEntry::Other(p("./examples/gitlab-ci/.gitlab-ci.yml")),
        ScanEntry::Failed,
        ScanEntry::Directory(p("./examples/makefile")),
        ScanEntry::Other(p("./examples/makefile/Makefile")),
    ];

    let actual = set(all_config.observe_entries(&entries));

    let mut expected: HashSet<DirPath> = HashSet::new();
    expected.insert(p("./examples"));
    expected.insert(p("./examples/dockerfile"));
    expected.insert(p("./examples/gitlab-ci"));
    expected.insert(p("./examples/makefile"));

    assert_eq!(expected.eq(&actual), true);
}

#[test]
fn scan_keeps_each_directory_once() {
    let cfg = AllConfig { directory: p("r") };
    let out = cfg.observe_entries(&vec![ScanEntry::Directory(p("r")), ScanEntry::Directory(p("r/"))]);
    assert_eq!(out.len(), 1);
}

#[test]
fn add_path_skips_duplicates() {
    let mut v = vec![p("a")];
    add_path(&mut v, p("a/"));
    add_path(&mut v, p("b"));
    assert_eq!(v, vec![p("a"), p("b")]);
}

#[test]
fn test_directory_isnt_repository() {
    let (state, action) = start();
    assert!(matches!(action, GitAction::OpenRepository));
    let (state, action) = step(state, GitEvent::OpenFailed);
    assert_eq!(state, DetectState::Done);
    assert_eq!(finished(action).unwrap_err(), DetectError::InvalidRepository);
}

#[test]
fn verify_test_directory_is_bare() {
    let (_, action) = step(DetectState::Opening, GitEvent::Opened { bare: true, empty: false });
    assert_eq!(finished(action).is_err(), true);
}

#[test]
fn verify_test_directory_is_empty() {
    let (_, action) = step(DetectState::Opening, GitEvent::Opened { bare: false, empty: true });
    assert_eq!(finished(action).is_err(), true);
}

#[test]
fn git_test_directory_is_bare() {
    let (_, action) = step(DetectState::Opening, GitEvent::Opened { bare: true, empty: true });
    assert_eq!(finished(action).unwrap_err(), DetectError::InvalidRepository);
}

#[test]
fn git_test_directory_is_empty() {
    let (_, action) = step(DetectState::Opening, GitEvent::Opened { bare: false, empty: true });
    assert_eq!(finished(action).unwrap_err(), DetectError::InvalidRepository);
}

#[test]
fn test_is_can_verify_git_repository() {
    let (state, action) = step(DetectState::Opening, GitEvent::Opened { bare: false, empty: false });
    assert_eq!(state, DetectState::Walking);
    assert!(matches!(action, GitAction::NextRevision));
}

#[test]
fn test_can_discover_modified_directories() {
    let (state, _) = start();
    let (state, _) = step(state, GitEvent::Opened { bare: false, empty: false });
    let (state, action) = step(state, GitEvent::Revision(Some(WalkEntry::NotACommit)));
    assert!(matches!(action, GitAction::NextRevision));
    let (state, action) = step(state, GitEvent::Revision(Some(WalkEntry::Commit)));
    assert_eq!(state, DetectState::Diffing);
    assert!(matches!(action, GitAction::DiffWithParent));
    let (state, action) = step(state, GitEvent::Diffed(vec![p("second/file"), p("third/file")]));
    assert_eq!(state, DetectState::Done);

    let mut modpaths: HashSet<DirPath> = HashSet::new();
    modpaths.insert(p("second"));
    modpaths.insert(p("third"));
    assert_eq!(set(finished(action).unwrap()), modpaths);
}

#[test]
fn walk_failures_are_detection_errors() {
    let (_, a) = step(DetectState::Walking, GitEvent::Revision(Some(WalkEntry::Unreadable)));
    assert_eq!(finished(a).unwrap_err(), DetectError::Detection);
    let (_, a) = step(DetectState::Walking, GitEvent::Revision(None));
    assert_eq!(finished(a).unwrap_err(), DetectError::Detection);
    let (_, a) = step(DetectState::Diffing, GitEvent::Failed);
    assert_eq!(finished(a).unwrap_err(), DetectError::Detection);
    let (s, a) = step(DetectState::Done, GitEvent::Failed);
    assert_eq!(s, DetectState::Done);
    assert_eq!(finished(a).unwrap_err(), DetectError::Detection);
}

#[test]
fn changes_coarsen_to_directories() {
    let out = changed_directories(&vec![p("a/x.rs"), p("a/y.rs"), p("top.txt"), p("b/c/d")]);
    assert_eq!(set(out.clone()), set(vec![p("a"), p(""), p("b/c")]));
    assert_eq!(out.len(), 3);
}
