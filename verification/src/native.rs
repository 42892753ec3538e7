//! Native file names and paths.
//!
//! A file name is a sequence of bytes in whatever encoding the file system uses; no
//! lossy conversion takes place. A path is the sequence of its components.

use vstd::prelude::*;

use crate::text;
use crate::text::{chars_of, slice_pieces, str_eq, CharClass};

verus! {

/// One component of a path.
#[derive(Debug, Clone, PartialEq, Eq)]
pub enum Component {
    /// The root directory, at the start of an absolute path.
    Root,
    /// The current directory, at the start of a relative path.
    Current,
    /// The parent directory.
    Parent,
    /// A file name.
    Normal(Vec<u8>),
}

/// The mathematical form of a component.
pub enum Part {
    Root,
    Current,
    Parent,
    Normal(Seq<u8>),
}

impl View for Component {
    type V = Part;

    open spec fn view(&self) -> Part {
        match self {
            Component::Root => Part::Root,
            Component::Current => Part::Current,
            Component::Parent => Part::Parent,
            Component::Normal(name) => Part::Normal(name@),
        }
    }
}

/// A path: its components in order.
#[derive(Debug, Clone, PartialEq, Eq)]
pub struct NativePath {
    pub parts: Vec<Component>,
}

impl View for NativePath {
    type V = Seq<Part>;

    open spec fn view(&self) -> Seq<Part> {
        self.parts@.map_values(|c: Component| c@)
    }
}

/// The bytes of a text in UTF-8, the form in which a configured name meets file names.
pub open spec fn utf8(s: Seq<char>) -> Seq<u8> {
    vstd::utf8::encode_utf8(s)
}

/// The component that names a file.
pub open spec fn named(s: Seq<char>) -> Part {
    Part::Normal(utf8(s))
}

/// The components of an absolute path whose names are these: `.` stands for nothing,
/// and `..` for the parent.
pub open spec fn absolute(names: Seq<Seq<char>>) -> Seq<Part>
    decreases names.len(),
{
    if names.len() == 0 {
        seq![Part::Root]
    } else {
        let before = absolute(names.drop_last());
        if names.last() == "."@ {
            before
        } else if names.last() == ".."@ {
            before.push(Part::Parent)
        } else {
            before.push(named(names.last()))
        }
    }
}

/// The components of an absolute path as it is written; repeated separators count as
/// one.
pub open spec fn written(s: Seq<char>) -> Seq<Part> {
    absolute(text::pieces(s, CharClass::Only('/')))
}

/// A file name that can stand in a directory: not empty, free of separators, and neither
/// of the names that every directory has for itself and its parent.
pub open spec fn plain_name(name: Seq<u8>) -> bool {
    &&& name.len() > 0
    &&& !name.contains(0x2f)
    &&& name != utf8("."@)
    &&& name != utf8(".."@)
}

/// `p` begins with all of `base`.
pub open spec fn begins(p: Seq<Part>, base: Seq<Part>) -> bool {
    base.len() <= p.len() && p.take(base.len() as int) == base
}

/// `b` taken relative to `a`: an absolute `b` stands alone.
pub open spec fn joined(a: Seq<Part>, b: Seq<Part>) -> Seq<Part> {
    if a.len() == 0 || (b.len() > 0 && b[0] == Part::Root) {
        b
    } else if b.len() > 0 && b[0] == Part::Current {
        a + b.drop_first()
    } else {
        a + b
    }
}

/// `p` has a component that leaves the directory it is relative to.
pub open spec fn leaves(p: Seq<Part>) -> bool {
    exists|i: int|
        0 <= i < p.len() && (#[trigger] p[i] == Part::Parent || p[i] == Part::Root)
}

/// Compares two byte strings.
pub fn bytes_eq(a: &[u8], b: &[u8]) -> (r: bool)
    ensures
        r == (a@ == b@),
{
    if a.len() != b.len() {
        return false;
    }
    let mut i: usize = 0;
    while i < a.len()
        invariant
            i <= a.len(),
            a.len() == b.len(),
            forall|j: int| 0 <= j < i ==> a@[j] == b@[j],
        decreases a.len() - i,
    {
        if a[i] != b[i] {
            return false;
        }
        i = i + 1;
    }
    assert(a@ =~= b@);
    true
}

/// Copies a byte string.
pub fn copy_bytes(a: &[u8]) -> (r: Vec<u8>)
    ensures
        r@ == a@,
{
    let mut r: Vec<u8> = Vec::new();
    let mut i: usize = 0;
    while i < a.len()
        invariant
            i <= a.len(),
            r@ == a@.take(i as int),
        decreases a.len() - i,
    {
        r.push(a[i]);
        assert(a@.take(i as int + 1) == a@.take(i as int).push(a@[i as int]));
        i = i + 1;
    }
    assert(a@.take(a@.len() as int) == a@);
    r
}

/// Tests whether a file name is the given text.
pub fn name_is(name: &[u8], s: &str) -> (r: bool)
    ensures
        r == (name@ == utf8(s@)),
{
    bytes_eq(name, s.as_bytes())
}

/// The views of a list of file names.
pub open spec fn names(v: Seq<Vec<u8>>) -> Seq<Seq<u8>> {
    v.map_values(|n: Vec<u8>| n@)
}

/// Copies a list of file names.
pub fn copy_names(v: &Vec<Vec<u8>>) -> (r: Vec<Vec<u8>>)
    ensures
        names(r@) == names(v@),
{
    let mut r: Vec<Vec<u8>> = Vec::new();
    let mut i: usize = 0;
    while i < v.len()
        invariant
            i <= v.len(),
            names(r@) == names(v@).take(i as int),
        decreases v.len() - i,
    {
        r.push(copy_bytes(v[i].as_slice()));
        assert(names(r@) == names(v@).take(i as int).push(v@[i as int]@));
        assert(names(v@).take(i as int + 1) == names(v@).take(i as int).push(v@[i as int]@));
        i = i + 1;
    }
    assert(names(v@).take(v@.len() as int) == names(v@));
    r
}

impl Component {
    /// Compares two components.
    pub fn same(&self, other: &Component) -> (r: bool)
        ensures
            r == (self@ == other@),
    {
        match (self, other) {
            (Component::Root, Component::Root) => true,
            (Component::Current, Component::Current) => true,
            (Component::Parent, Component::Parent) => true,
            (Component::Normal(a), Component::Normal(b)) => bytes_eq(a.as_slice(), b.as_slice()),
            _ => false,
        }
    }

    /// Copies a component.
    pub fn copy(&self) -> (r: Component)
        ensures
            r@ == self@,
    {
        match self {
            Component::Root => Component::Root,
            Component::Current => Component::Current,
            Component::Parent => Component::Parent,
            Component::Normal(a) => Component::Normal(copy_bytes(a.as_slice())),
        }
    }
}

impl NativePath {
    /// The path of one file name.
    pub fn of_name(s: &str) -> (r: NativePath)
        ensures
            r@ == seq![named(s@)],
    {
        let mut parts: Vec<Component> = Vec::new();
        parts.push(Component::Normal(copy_bytes(s.as_bytes())));
        let r = NativePath { parts };
        assert(r@ == seq![named(s@)]);
        r
    }

    /// The components of an absolute path as it is written.
    pub fn of_absolute(s: &str) -> (r: NativePath)
        ensures
            r@ == written(s@),
    {
        let all = chars_of(s);
        let names = slice_pieces(all.as_slice(), CharClass::Only('/'));
        let ghost views = text::texts(names@);
        let mut r = NativePath { parts: Vec::new() };
        r.parts.push(Component::Root);
        let mut i: usize = 0;
        assert(r@ == absolute(views.take(0)));
        while i < names.len()
            invariant
                i <= names.len(),
                views == text::texts(names@),
                r@ == absolute(views.take(i as int)),
            decreases names.len() - i,
        {
            let ghost before = r@;
            assert(views.take(i as int + 1).drop_last() == views.take(i as int));
            assert(views.take(i as int + 1).last() == names@[i as int]@);
            if str_eq(names[i].as_str(), "..") {
                r.parts.push(Component::Parent);
                assert(r@ == before.push(Part::Parent));
                assert(".."@ != "."@) by {
                    reveal_strlit("..");
                    reveal_strlit(".");
                }
            } else if !str_eq(names[i].as_str(), ".") {
                r.parts.push(Component::Normal(copy_bytes(names[i].as_str().as_bytes())));
                assert(r@ == before.push(named(names@[i as int]@)));
            }
            i = i + 1;
        }
        assert(views.take(views.len() as int) == views);
        r
    }

    /// The components from `from` up to `to`.
    pub fn slice(&self, from: usize, to: usize) -> (r: NativePath)
        requires
            from <= to <= self@.len(),
        ensures
            r@ == self@.subrange(from as int, to as int),
    {
        let mut parts: Vec<Component> = Vec::new();
        let mut i: usize = from;
        while i < to
            invariant
                from <= i <= to <= self@.len(),
                parts@.map_values(|c: Component| c@) == self@.subrange(from as int, i as int),
            decreases to - i,
        {
            let ghost before = parts@.map_values(|c: Component| c@);
            parts.push(self.parts[i].copy());
            assert(parts@.map_values(|c: Component| c@) == before.push(self@[i as int]));
            assert(self@.subrange(from as int, i as int + 1) == before.push(self@[i as int]));
            i = i + 1;
        }
        NativePath { parts }
    }

    /// Copies a path.
    pub fn copy(&self) -> (r: NativePath)
        ensures
            r@ == self@,
    {
        let r = self.slice(0, self.parts.len());
        assert(self@.subrange(0, self@.len() as int) == self@);
        r
    }

    /// Tests whether the path begins with all components of `base`.
    pub fn starts_with(&self, base: &NativePath) -> (r: bool)
        ensures
            r == begins(self@, base@),
    {
        if base.parts.len() > self.parts.len() {
            return false;
        }
        let mut i: usize = 0;
        while i < base.parts.len()
            invariant
                i <= base.parts.len() <= self.parts.len(),
                forall|j: int| 0 <= j < i ==> self@[j] == base@[j],
            decreases base.parts.len() - i,
        {
            if !self.parts[i].same(&base.parts[i]) {
                assert(self@[i as int] != base@[i as int]);
                assert(self@.take(base@.len() as int)[i as int] == self@[i as int]);
                return false;
            }
            i = i + 1;
        }
        assert(self@.take(base@.len() as int) =~= base@);
        true
    }

    /// Compares two paths.
    pub fn same(&self, other: &NativePath) -> (r: bool)
        ensures
            r == (self@ == other@),
    {
        let r = self.parts.len() == other.parts.len() && self.starts_with(other);
        assert(self@.take(self@.len() as int) == self@);
        r
    }

    /// The path relative to `base`, if it begins with it.
    pub fn strip_prefix(&self, base: &NativePath) -> (r: Option<NativePath>)
        ensures
            match r {
                Some(rest) => begins(self@, base@) && rest@ == self@.skip(base@.len() as int),
                None => !begins(self@, base@),
            },
    {
        if !self.starts_with(base) {
            return None;
        }
        Some(self.slice(base.parts.len(), self.parts.len()))
    }

    /// `other` taken relative to this path.
    pub fn join(&self, other: &NativePath) -> (r: NativePath)
        ensures
            r@ == joined(self@, other@),
    {
        if self.parts.len() == 0 {
            return other.copy();
        }
        let mut from: usize = 0;
        if other.parts.len() > 0 {
            match other.parts[0] {
                Component::Root => {
                    return other.copy();
                },
                Component::Current => {
                    from = 1;
                },
                _ => {},
            }
        }
        let mut r = self.copy();
        let mut rest = other.slice(from, other.parts.len());
        let ghost tail = rest@;
        r.parts.append(&mut rest.parts);
        assert(r@ == self@ + tail);
        assert(tail == if from == 1 {
            other@.drop_first()
        } else {
            other@
        });
        r
    }

    /// Tests for a component that leaves the directory the path is relative to.
    pub fn has_traversal(&self) -> (r: bool)
        ensures
            r == leaves(self@),
    {
        let mut i: usize = 0;
        while i < self.parts.len()
            invariant
                i <= self.parts.len(),
                forall|j: int|
                    0 <= j < i ==> #[trigger] self@[j] != Part::Parent && self@[j] != Part::Root,
            decreases self.parts.len() - i,
        {
            let part = &self.parts[i];
            assert(self@[i as int] == part@);
            match part {
                Component::Parent => {
                    return true;
                },
                Component::Root => {
                    return true;
                },
                _ => {},
            }
            i = i + 1;
        }
        false
    }
}

/// A path begins with another exactly when it is that other with something behind it, and
/// leaves its directory exactly when it names the root or a parent.
pub proof fn law_path_beginnings(p: Seq<Part>, base: Seq<Part>)
    ensures
        begins(p, base) <==> exists|rest: Seq<Part>| p == #[trigger] (base + rest),
        leaves(p) <==> p.contains(Part::Root) || p.contains(Part::Parent),
{
    if begins(p, base) {
        assert(p == base + p.skip(base.len() as int));
    }
    if exists|rest: Seq<Part>| p == #[trigger] (base + rest) {
        let rest = choose|rest: Seq<Part>| p == #[trigger] (base + rest);
        assert(p.take(base.len() as int) =~= base);
    }
    if p.contains(Part::Root) {
        let i = p.index_of(Part::Root);
        assert(p[i] == Part::Root);
    }
    if p.contains(Part::Parent) {
        let i = p.index_of(Part::Parent);
        assert(p[i] == Part::Parent);
    }
}

/// A path that begins with a file name stands below the path it is taken relative to; an
/// absolute one stands alone.
pub proof fn law_joined_paths(a: Seq<Part>, name: Seq<u8>, rest: Seq<Part>)
    requires
        a.len() > 0,
    ensures
        joined(a, seq![Part::Normal(name)] + rest) == a + seq![Part::Normal(name)] + rest,
        joined(a, seq![Part::Root] + rest) == seq![Part::Root] + rest,
        joined(a, Seq::empty()) == a,
{
    let b = seq![Part::Normal(name)] + rest;
    assert(b[0] == Part::Normal(name));
    assert(a + b == a + seq![Part::Normal(name)] + rest);
    assert((seq![Part::Root] + rest)[0] == Part::Root);
    assert(a + Seq::<Part>::empty() == a);
}

proof fn lemma_absolute_add(a: Seq<Seq<char>>, b: Seq<Seq<char>>)
    ensures
        absolute(a + b) == absolute(a) + absolute(b).drop_first(),
        absolute(b).len() > 0,
        absolute(b)[0] == Part::Root,
    decreases b.len(),
{
    if b.len() == 0 {
        assert(a + b == a);
        assert(absolute(a) + absolute(b).drop_first() == absolute(a));
    } else {
        assert((a + b).drop_last() == a + b.drop_last());
        lemma_absolute_add(a, b.drop_last());
        let before = absolute(b.drop_last());
        assert(forall|p: Part| #[trigger] before.push(p).drop_first() == before.drop_first().push(p));
        assert(forall|p: Part|
            absolute(a) + #[trigger] before.drop_first().push(p) == (absolute(a)
                + before.drop_first()).push(p));
    }
}

/// An absolute path is read name by name: a separator divides it, an empty name and `.`
/// add nothing, `..` is the parent, and any other name is a file name, unchanged.
pub proof fn law_written_paths(a: Seq<char>, b: Seq<char>, name: Seq<char>)
    requires
        name.len() > 0,
        !name.contains('/'),
    ensures
        written(a + seq!['/'] + b) == written(a) + written(b).drop_first(),
        written(Seq::empty()) == seq![Part::Root],
        written(name) == if name == "."@ {
            seq![Part::Root]
        } else if name == ".."@ {
            seq![Part::Root, Part::Parent]
        } else {
            seq![Part::Root, Part::Normal(utf8(name))]
        },
{
    let k = CharClass::Only('/');
    text::law_pieces(a, '/', b, k);
    lemma_absolute_add(text::pieces(a, k), text::pieces(b, k));
    text::law_pieces(name, '/', b, k);
    assert forall|i: int| 0 <= i < name.len() implies !text::in_class(k, #[trigger] name[i]) by {
        if name[i] == '/' {
            assert(name.contains('/'));
        }
    }
    assert(text::pieces(name, k) == seq![name]);
    assert(seq![name].drop_last() == Seq::<Seq<char>>::empty());
    assert(absolute(Seq::<Seq<char>>::empty()) == seq![Part::Root]);
    assert(".."@ != "."@) by {
        reveal_strlit("..");
        reveal_strlit(".");
        assert(".."@.len() == 2);
        assert("."@.len() == 1);
    }
    assert(seq![Part::Root].push(Part::Parent) == seq![Part::Root, Part::Parent]);
    assert(seq![Part::Root].push(named(name)) == seq![Part::Root, Part::Normal(utf8(name))]);
}

/// A path that is taken relative to nothing stands as it is, one that begins with a parent
/// keeps it, and a leading mark for the directory itself adds nothing.
pub proof fn law_joined_marks(a: Seq<Part>, rest: Seq<Part>)
    requires
        a.len() > 0,
    ensures
        joined(Seq::empty(), rest) == rest,
        joined(a, seq![Part::Parent] + rest) == a + seq![Part::Parent] + rest,
        joined(a, seq![Part::Current] + rest) == a + rest,
{
    assert((seq![Part::Parent] + rest)[0] == Part::Parent);
    assert((seq![Part::Current] + rest)[0] == Part::Current);
    assert((seq![Part::Current] + rest).drop_first() =~= rest);
    assert(a + (seq![Part::Parent] + rest) =~= a + seq![Part::Parent] + rest);
}

/// A name that can stand in a directory has a byte at least, no separator among them, and is
/// neither one dot nor two.
pub proof fn law_plain_names(name: Seq<u8>)
    ensures
        plain_name(name) <==> name.len() > 0 && name != utf8("."@) && name != utf8(".."@) && forall|
            i: int,
        |
            0 <= i < name.len() ==> #[trigger] name[i] != 47,
{
    if name.contains(0x2f) {
        let i = name.index_of(0x2f);
        assert(name[i] == 47);
    }
}

} // verus!
