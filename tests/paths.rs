use weave::path::DirPath;

fn segs(v: &[&str]) -> Vec<String> {
    v.iter().map(|s| s.to_string()).collect()
}

#[test]
fn parse_splits_on_separators() {
    let a = DirPath::parse("/repo/services/api");
    assert!(a.absolute);
    assert_eq!(a.segments, segs(&["repo", "services", "api"]));

    let b = DirPath::parse("examples//gitlab-ci/");
    assert!(!b.absolute);
    assert_eq!(b.segments, segs(&["examples", "gitlab-ci"]));

    let c = DirPath::parse("");
    assert!(!c.absolute);
    assert!(c.segments.is_empty());

    let d = DirPath::parse("/");
    assert!(d.absolute);
    assert!(d.segments.is_empty());
}

#[test]
fn render_joins_components() {
    assert_eq!(DirPath::parse("/repo/services/api").render(), "/repo/services/api");
    assert_eq!(DirPath::parse("a/b/").render(), "a/b");
    assert_eq!(DirPath::parse("/").render(), "/");
    assert_eq!(DirPath::parse("").render(), "");
}

#[test]
fn join_pop_and_compare() {
    let root = DirPath::parse("examples");
    let joined = root.join(&DirPath::parse("dockerfile/sub"));
    assert_eq!(joined.render(), "examples/dockerfile/sub");
    let abs = root.join(&DirPath::parse("/repo/x"));
    assert_eq!(abs.render(), "/repo/x");

    let mut cur = DirPath::parse("a/b");
    assert!(cur.pop());
    assert!(cur.same(&DirPath::parse("a")));
    assert!(cur.pop());
    assert!(!cur.pop());
    assert!(cur.same(&DirPath::parse("")));
    assert!(!DirPath::parse("/a").same(&DirPath::parse("a")));

    let child = DirPath::parse("/r").child("Dockerfile");
    assert_eq!(child.render(), "/r/Dockerfile");
    assert_eq!(DirPath::from_segments(false, segs(&["x", "y"])).render(), "x/y");
    assert_eq!(DirPath::parse("x/y").duplicate(), DirPath::parse("x/y"));
}
