use std::collections::HashSet;

use weave::build_tools::docker::{self, DockerBuild};
use weave::build_tools::gitlab::{self, GitLabBuild};
use weave::build_tools::{recognize, BuildConfig, BuildTool, BuildTools, ToolKind};
use weave::detect::{detect_build_roots, marker_candidates, walk_to_build_root};
use weave::files::FileSet;
use weave::path::DirPath;

fn p(s: &str) -> DirPath {
    DirPath::parse(s)
}

fn files(list: &[&str]) -> FileSet {
    let mut f = FileSet::new();
    for s in list {
        f.insert(p(s));
    }
    f
}

fn dirs(list: &[&str]) -> Vec<DirPath> {
    list.iter().map(|s| p(s)).collect()
}

fn as_set(v: Vec<BuildTools>) -> HashSet<BuildTools> {
    v.into_iter().collect()
}

fn docker_unit(dir: &str) -> BuildTools {
    BuildTools::Docker(DockerBuild {
        config: BuildConfig::new(p(dir)),
        dockerfile: String::from("Dockerfile"),
    })
}

fn gitlab_unit(dir: &str) -> BuildTools {
    BuildTools::GitLab(GitLabBuild { config: BuildConfig::new(p(dir)) })
}

fn examples_tree() -> FileSet {
    files(&[
        "examples/dockerfile/Dockerfile",
        "examples/gitlab-ci/.gitlab-ci.yml",
        "examples/makefile/Makefile",
    ])
}

#[test]
fn test_is_can_find_all_build_roots() {
    let root_dir = p("examples");
    let changed_dirs = dirs(&["dockerfile", "gitlab-ci", "makefile"]);

    let actual = as_set(detect_build_roots(&root_dir, &changed_dirs, &examples_tree()));

    let mut expected: HashSet<BuildTools> = HashSet::new();
    expected.insert(BuildTools::GitLab(GitLabBuild {
        config: BuildConfig { directory: p("examples/gitlab-ci"), dependencies: Vec::new() },
    }));
    expected.insert(BuildTools::Docker(DockerBuild {
        config: BuildConfig { directory: p("examples/dockerfile"), dependencies: Vec::new() },
        dockerfile: String::from("Dockerfile"),
    }));

    assert_eq!(actual, expected);
}

#[test]
fn container_unit_at_changed_directory() {
    let fs = files(&["/repo/services/api/Dockerfile"]);
    let actual = detect_build_roots(&p("/repo"), &dirs(&["/repo/services/api"]), &fs);
    assert_eq!(actual.len(), 1);
    assert_eq!(as_set(actual), as_set(vec![docker_unit("/repo/services/api")]));
}

#[test]
fn no_marker_up_to_root_gives_nothing() {
    let fs = files(&["/repo/README.md", "/Dockerfile", "/repo/services/api/src/main.rs"]);
    let actual = detect_build_roots(&p("/repo"), &dirs(&["/repo/services/api/src"]), &fs);
    assert!(actual.is_empty());
}

#[test]
fn two_changes_share_one_pipeline_unit() {
    let fs = files(&["/repo/.gitlab-ci.yml"]);
    let actual = detect_build_roots(&p("/repo"), &dirs(&["/repo/a", "/repo/b"]), &fs);
    assert_eq!(actual.len(), 1);
    assert_eq!(as_set(actual), as_set(vec![gitlab_unit("/repo")]));
}

#[test]
fn pipeline_marker_wins_over_container_marker() {
    let fs = files(&["/repo/app/.gitlab-ci.yml", "/repo/app/Dockerfile"]);
    let actual = detect_build_roots(&p("/repo"), &dirs(&["/repo/app/src"]), &fs);
    assert_eq!(as_set(actual), as_set(vec![gitlab_unit("/repo/app")]));

    let config = BuildConfig::new(p("/repo/app"));
    let found = recognize(config, &fs).unwrap();
    assert_eq!(found.kind(), ToolKind::Pipeline);
}

#[test]
fn root_itself_without_marker_gives_nothing() {
    let fs = files(&["/repo/sub/Dockerfile"]);
    assert!(walk_to_build_root(&p("/repo"), &p("/repo"), &fs).is_none());
    assert!(walk_to_build_root(&p("examples"), &p(""), &fs).is_none());
}

#[test]
fn walk_stops_at_root() {
    let fs = files(&["/Dockerfile", "/repo/.gitlab-ci.yml"]);
    let found = walk_to_build_root(&p("/repo/sub"), &p("x/y"), &fs);
    assert!(found.is_none());
    let found = walk_to_build_root(&p("/repo"), &p("x/y"), &fs).unwrap();
    assert_eq!(found, gitlab_unit("/repo"));
}

#[test]
fn walk_outside_root_finds_nothing() {
    let fs = files(&["/Dockerfile", "/other/Dockerfile", "/other/place/.gitlab-ci.yml"]);
    assert!(walk_to_build_root(&p("/repo"), &p("/other/place"), &fs).is_none());
    assert!(walk_to_build_root(&p("/repo"), &p("/other"), &fs).is_none());
    let all = detect_build_roots(&p("/repo"), &dirs(&["/other/place", "/repo/x"]), &fs);
    assert!(all.is_empty());
}

#[test]
fn candidates_stay_under_root() {
    assert!(marker_candidates(&p("/repo"), &dirs(&["/other/place"])).is_empty());
}

#[test]
fn recognizers_keep_the_given_config() {
    let fs = files(&["/a/Dockerfile", "/b/.gitlab-ci.yml"]);
    let with_dep = |dir: &str| BuildConfig {
        directory: p(dir),
        dependencies: vec![BuildConfig::new(p("/lib"))],
    };
    match docker::detect(with_dep("/a"), &fs) {
        Some(BuildTools::Docker(d)) => assert_eq!(d.config, with_dep("/a")),
        other => panic!("unexpected {:?}", other),
    }
    match gitlab::detect(with_dep("/b"), &fs) {
        Some(BuildTools::GitLab(g)) => assert_eq!(g.config, with_dep("/b")),
        other => panic!("unexpected {:?}", other),
    }
    match recognize(with_dep("/b"), &fs) {
        Some(u) => assert_eq!(u.config(), &with_dep("/b")),
        None => panic!("nothing recognized"),
    }
}

#[test]
fn repeated_runs_agree() {
    let fs = examples_tree();
    let changed = dirs(&["dockerfile", "gitlab-ci", "makefile", "dockerfile/sub"]);
    let first = as_set(detect_build_roots(&p("examples"), &changed, &fs));
    let second = as_set(detect_build_roots(&p("examples"), &changed, &fs));
    assert_eq!(first, second);
    assert_eq!(first.len(), 2);
}

#[test]
fn deepest_marker_is_nearest() {
    let fs = files(&["/repo/.gitlab-ci.yml", "/repo/services/Dockerfile"]);
    let actual = detect_build_roots(&p("/repo"), &dirs(&["/repo/services/api", "/repo/docs"]), &fs);
    assert_eq!(
        as_set(actual),
        as_set(vec![docker_unit("/repo/services"), gitlab_unit("/repo")])
    );
}

#[test]
fn recognizers_look_for_their_markers() {
    let fs = files(&["/a/Dockerfile", "/b/.gitlab-ci.yml", "/c/Containerfile"]);
    let a = || BuildConfig::new(p("/a"));
    let b = || BuildConfig::new(p("/b"));
    let c = || BuildConfig::new(p("/c"));
    assert_eq!(docker::detect(a(), &fs), Some(docker_unit("/a")));
    assert_eq!(docker::detect(b(), &fs), None);
    assert_eq!(gitlab::detect(b(), &fs), Some(gitlab_unit("/b")));
    assert_eq!(gitlab::detect(a(), &fs), None);
    assert_eq!(docker::detect(c(), &fs), None);
    match docker::detect_named(c(), &fs, "Containerfile") {
        Some(BuildTools::Docker(d)) => assert_eq!(d.dockerfile, "Containerfile"),
        other => panic!("unexpected {:?}", other),
    }
}

#[test]
fn unit_identity_is_kind_and_directory() {
    let a = docker_unit("/repo/x");
    let b = BuildTools::Docker(DockerBuild {
        config: BuildConfig::new(p("/repo/x")),
        dockerfile: String::from("Other"),
    });
    let c = gitlab_unit("/repo/x");
    assert!(a.same_unit(&b));
    assert!(!a.same_unit(&c));
    assert!(!a.same_unit(&docker_unit("/repo/y")));
}

#[test]
fn ids_and_command() {
    let d = DockerBuild { config: BuildConfig::new(p("/repo/api")), dockerfile: String::from("Dockerfile") };
    assert_eq!(d.id(), "/repo/api/Dockerfile");
    assert_eq!(
        d.command(),
        vec!["docker", "image", "build", "-f", "/repo/api/Dockerfile", "-t", "weave_build", "/repo/api"]
    );
    let g = GitLabBuild { config: BuildConfig::new(p("examples/gitlab-ci")) };
    assert_eq!(g.id(), "examples/gitlab-ci");
    assert!(g.build());
}

#[test]
fn candidates_cover_the_walk() {
    let list = marker_candidates(&p("/repo"), &dirs(&["/repo/a/b"]));
    let got: HashSet<DirPath> = list.into_iter().collect();
    let want: HashSet<DirPath> = dirs(&[
        "/repo/a/b/.gitlab-ci.yml",
        "/repo/a/b/Dockerfile",
        "/repo/a/.gitlab-ci.yml",
        "/repo/a/Dockerfile",
        "/repo/.gitlab-ci.yml",
        "/repo/Dockerfile",
    ])
    .into_iter()
    .collect();
    assert_eq!(got, want);
}
