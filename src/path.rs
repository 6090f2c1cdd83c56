//! Directory paths, held as a list of components.
use vstd::prelude::*;

verus! {

/// What a path is: whether it starts at the filesystem root, and its components.
pub type PathView = (bool, Seq<Seq<char>>);

/// A normalized filesystem path: an absolute flag and the list of its components.
/// Two paths are the same path when both parts are equal.
#[derive(Clone, Debug, PartialEq, Eq, Hash)]
pub struct DirPath {
    pub absolute: bool,
    pub segments: Vec<String>,
}

impl View for DirPath {
    type V = PathView;

    open spec fn view(&self) -> PathView {
        (self.absolute, self.segments@.map_values(|s: String| s@))
    }
}

/// `root` joined with `p`: an absolute `p` replaces `root`, a relative one extends it.
pub open spec fn join_spec(root: PathView, p: PathView) -> PathView {
    if p.0 {
        p
    } else {
        (root.0, root.1 + p.1)
    }
}

/// The path one level up; a path without components has none.
pub open spec fn parent_spec(p: PathView) -> PathView {
    (p.0, p.1.drop_last())
}

/// The path `p` with one more component.
pub open spec fn child_spec(p: PathView, name: Seq<char>) -> PathView {
    (p.0, p.1.push(name))
}

/// The components of `s` read from left to right, `cur` being the part of a
/// component read so far; empty components are dropped.
pub open spec fn split_rest(s: Seq<char>, cur: Seq<char>) -> Seq<Seq<char>>
    decreases s.len(),
{
    if s.len() == 0 {
        if cur.len() == 0 {
            seq![]
        } else {
            seq![cur]
        }
    } else if s[0] == '/' {
        (if cur.len() == 0 {
            seq![]
        } else {
            seq![cur]
        }) + split_rest(s.drop_first(), seq![])
    } else {
        split_rest(s.drop_first(), cur.push(s[0]))
    }
}

/// The path that the text `s` denotes: absolute when it starts with `/`,
/// with the non-empty pieces between separators as components.
pub open spec fn parse_spec(s: Seq<char>) -> PathView {
    (s.len() > 0 && s[0] == '/', split_rest(s, seq![]))
}

/// The components joined by `/`.
pub open spec fn joined(segs: Seq<Seq<char>>) -> Seq<char>
    decreases segs.len(),
{
    if segs.len() == 0 {
        seq![]
    } else if segs.len() == 1 {
        segs[0]
    } else {
        joined(segs.drop_last()) + seq!['/'] + segs.last()
    }
}

/// The text of a path: a leading `/` when it is absolute, then its components joined by `/`.
pub open spec fn render_spec(p: PathView) -> Seq<char> {
    if p.0 {
        seq!['/'] + joined(p.1)
    } else {
        joined(p.1)
    }
}

/// `anc` is `p` or lies above it.
pub open spec fn is_ancestor(anc: PathView, p: PathView) -> bool {
    anc.0 == p.0 && anc.1.len() <= p.1.len() && p.1.subrange(0, anc.1.len() as int) == anc.1
}

/// A path that lies under `root` and is not `root` has its parent under `root` too.
pub proof fn lemma_parent_stays_under(root: PathView, p: PathView)
    requires
        is_ancestor(root, p),
        p != root,
    ensures
        p.1.len() > root.1.len(),
        is_ancestor(root, parent_spec(p)),
{
    if root.1.len() == p.1.len() {
        assert(p.1.subrange(0, p.1.len() as int) =~= p.1);
        assert(p.1 =~= root.1);
    }
    assert(parent_spec(p).1.subrange(0, root.1.len() as int) =~= p.1.subrange(
        0,
        root.1.len() as int,
    ));
}

proof fn lemma_split_step(s: Seq<char>, i: int, start: int)
    requires
        0 <= start <= i < s.len(),
    ensures
        s[i] == '/' ==> split_rest(s.subrange(i, s.len() as int), s.subrange(start, i)) == (if i
            == start {
            seq![]
        } else {
            seq![s.subrange(start, i)]
        }) + split_rest(s.subrange(i + 1, s.len() as int), s.subrange(i + 1, i + 1)),
        s[i] != '/' ==> split_rest(s.subrange(i, s.len() as int), s.subrange(start, i))
            == split_rest(s.subrange(i + 1, s.len() as int), s.subrange(start, i + 1)),
{
    let rest = s.subrange(i, s.len() as int);
    assert(rest.drop_first() =~= s.subrange(i + 1, s.len() as int));
    assert(rest[0] == s[i]);
    assert(s.subrange(start, i).push(s[i]) =~= s.subrange(start, i + 1));
    assert(s.subrange(i + 1, i + 1) =~= Seq::<char>::empty());
}

impl DirPath {
    /// A path from its parts.
    pub fn from_segments(absolute: bool, segments: Vec<String>) -> (r: DirPath)
        ensures
            r.absolute == absolute,
            r.segments@ == segments@,
    {
        DirPath { absolute, segments }
    }

    /// Reads a path from text: `/` separates components, and a leading `/` makes it absolute.
    pub fn parse(s: &str) -> (r: DirPath)
        ensures
            r@ == parse_spec(s@),
    {
        let n = s.unicode_len();
        let mut segments: Vec<String> = Vec::new();
        let mut start: usize = 0;
        let mut i: usize = 0;
        assert(s@.subrange(0, n as int) =~= s@);
        assert(s@.subrange(0, 0) =~= Seq::<char>::empty());
        assert(segments@.map_values(|x: String| x@) + split_rest(s@, seq![]) =~= split_rest(
            s@,
            seq![],
        ));
        while i < n
            invariant
                n == s@.len(),
                start <= i <= n,
                segments@.map_values(|x: String| x@) + split_rest(
                    s@.subrange(i as int, n as int),
                    s@.subrange(start as int, i as int),
                ) == split_rest(s@, seq![]),
            decreases n - i,
        {
            let c = s.get_char(i);
            proof {
                lemma_split_step(s@, i as int, start as int);
            }
            if c == '/' {
                let ghost before = segments@.map_values(|x: String| x@);
                if start < i {
                    let piece = s.substring_char(start, i);
                    segments.push(String::from_str(piece));
                    assert(segments@.map_values(|x: String| x@) =~= before.push(
                        s@.subrange(start as int, i as int),
                    ));
                } else {
                    assert(segments@.map_values(|x: String| x@) =~= before);
                }
                start = i + 1;
            }
            i = i + 1;
        }
        let ghost before = segments@.map_values(|x: String| x@);
        if start < n {
            let piece = s.substring_char(start, n);
            segments.push(String::from_str(piece));
            assert(segments@.map_values(|x: String| x@) =~= before.push(
                s@.subrange(start as int, n as int),
            ));
        }
        assert(s@.subrange(0, n as int) =~= s@);
        assert(s@.subrange(0, 0) =~= Seq::<char>::empty());
        let absolute = n > 0 && s.get_char(0) == '/';
        DirPath { absolute, segments }
    }

    /// A copy of this path.
    pub fn duplicate(&self) -> (r: DirPath)
        ensures
            r@ == self@,
    {
        let mut segments: Vec<String> = Vec::new();
        let mut i: usize = 0;
        while i < self.segments.len()
            invariant
                i <= self.segments.len(),
                segments@.map_values(|x: String| x@) =~= self@.1.subrange(0, i as int),
            decreases self.segments.len() - i,
        {
            segments.push(self.segments[i].clone());
            assert(self@.1.subrange(0, i + 1) =~= self@.1.subrange(0, i as int).push(
                self.segments[i as int]@,
            ));
            i = i + 1;
        }
        assert(self@.1.subrange(0, self.segments.len() as int) =~= self@.1);
        DirPath { absolute: self.absolute, segments }
    }

    /// Whether the two paths are the same path.
    pub fn same(&self, other: &DirPath) -> (r: bool)
        ensures
            r == (self@ == other@),
    {
        if self.absolute != other.absolute || self.segments.len() != other.segments.len() {
            proof {
                if self@ == other@ {
                    assert(self@.1.len() == other@.1.len());
                }
            }
            return false;
        }
        let mut i: usize = 0;
        while i < self.segments.len()
            invariant
                i <= self.segments.len() == other.segments.len(),
                forall|k: int| 0 <= k < i ==> self@.1[k] == other@.1[k],
            decreases self.segments.len() - i,
        {
            if self.segments[i] != other.segments[i] {
                assert(self@.1[i as int] != other@.1[i as int]);
                return false;
            }
            i = i + 1;
        }
        assert(self@.1 =~= other@.1);
        true
    }

    /// Whether `prefix` is this path or lies above it.
    pub fn starts_with(&self, prefix: &DirPath) -> (r: bool)
        ensures
            r == is_ancestor(prefix@, self@),
    {
        if self.absolute != prefix.absolute || prefix.segments.len() > self.segments.len() {
            return false;
        }
        let mut i: usize = 0;
        while i < prefix.segments.len()
            invariant
                i <= prefix.segments.len() <= self.segments.len(),
                forall|k: int| 0 <= k < i ==> self@.1[k] == prefix@.1[k],
            decreases prefix.segments.len() - i,
        {
            if self.segments[i] != prefix.segments[i] {
                assert(self@.1.subrange(0, prefix@.1.len() as int)[i as int] != prefix@.1[i as int]);
                return false;
            }
            i = i + 1;
        }
        assert(self@.1.subrange(0, prefix@.1.len() as int) =~= prefix@.1);
        true
    }

    /// This path joined with `other` (see `join_spec`).
    pub fn join(&self, other: &DirPath) -> (r: DirPath)
        ensures
            r@ == join_spec(self@, other@),
    {
        if other.absolute {
            return other.duplicate();
        }
        let mut r = self.duplicate();
        let mut i: usize = 0;
        while i < other.segments.len()
            invariant
                i <= other.segments.len(),
                r@ == (self@.0, self@.1 + other@.1.subrange(0, i as int)),
            decreases other.segments.len() - i,
        {
            let ghost before = r@;
            r.segments.push(other.segments[i].clone());
            assert(r@.1 =~= before.1.push(other@.1[i as int]));
            assert(self@.1 + other@.1.subrange(0, i + 1) =~= (self@.1 + other@.1.subrange(
                0,
                i as int,
            )).push(other@.1[i as int]));
            i = i + 1;
        }
        assert(other@.1.subrange(0, other.segments.len() as int) =~= other@.1);
        r
    }

    /// This path with one more component, `name`.
    pub fn child(&self, name: &str) -> (r: DirPath)
        ensures
            r@ == child_spec(self@, name@),
    {
        let mut r = self.duplicate();
        let ghost before = r@;
        r.segments.push(String::from_str(name));
        assert(r@.1 =~= before.1.push(name@));
        r
    }

    /// Moves one level up. Returns `false`, leaving the path as it was, when there
    /// is no component left to remove.
    pub fn pop(&mut self) -> (r: bool)
        ensures
            r == (old(self)@.1.len() > 0),
            r ==> final(self)@ == parent_spec(old(self)@),
            !r ==> final(self)@ == old(self)@,
    {
        if self.segments.len() == 0 {
            return false;
        }
        let ghost before = self@;
        self.segments.pop();
        assert(self@.1 =~= before.1.drop_last());
        true
    }

    /// The text of this path (see `render_spec`).
    pub fn render(&self) -> (r: String)
        ensures
            r@ == render_spec(self@),
    {
        let mut body = String::new();
        let mut i: usize = 0;
        while i < self.segments.len()
            invariant
                i <= self.segments.len(),
                body@ == joined(self@.1.subrange(0, i as int)),
            decreases self.segments.len() - i,
        {
            let ghost prefix = self@.1.subrange(0, i + 1);
            assert(prefix.drop_last() =~= self@.1.subrange(0, i as int));
            assert(prefix.last() == self.segments[i as int]@);
            if i > 0 {
                body.append("/");
                proof {
                    reveal_strlit("/");
                }
            } else {
                assert(self@.1.subrange(0, 0).len() == 0);
            }
            body.append(self.segments[i].as_str());
            i = i + 1;
        }
        assert(self@.1.subrange(0, self.segments.len() as int) =~= self@.1);
        if self.absolute {
            let mut r = String::from_str("/");
            proof {
                reveal_strlit("/");
            }
            r.append(body.as_str());
            r
        } else {
            body
        }
    }
}

} // verus!
