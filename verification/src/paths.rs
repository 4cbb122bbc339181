//! File paths as the components that they are made of.
//!
//! A path is held as std's `Path::components` gives it: separators and needless `.` are gone, and
//! what is left is compared and taken apart one component at a time.

use vstd::prelude::*;
use crate::text::{chars_of, concat3, opt_text, same_text, text_of};

verus! {

/// One component of a path.
pub enum PathPart {
    /// The volume that a path starts with, where the system has volumes (`C:`).
    Prefix(String),
    /// The root directory.
    Root,
    /// `.` at the start of a path.
    Current,
    /// `..`
    Up,
    /// The name of a file or a directory.
    Name(String),
}

/// One component of a path, with its text.
pub enum PartView {
    Prefix(Seq<char>),
    Root,
    Current,
    Up,
    Name(Seq<char>),
}

impl View for PathPart {
    type V = PartView;

    open spec fn view(&self) -> PartView {
        match self {
            PathPart::Prefix(s) => PartView::Prefix(s@),
            PathPart::Root => PartView::Root,
            PathPart::Current => PartView::Current,
            PathPart::Up => PartView::Up,
            PathPart::Name(s) => PartView::Name(s@),
        }
    }
}

/// A path of the file system.
pub struct FilePath {
    pub parts: Vec<PathPart>,
}

/// The components of a path, in order.
pub type PathView = Seq<PartView>;

impl View for FilePath {
    type V = Seq<PartView>;

    open spec fn view(&self) -> Seq<PartView> {
        self.parts@.map_values(|p: PathPart| p@)
    }
}

/// A text that is one name of a path: it is not empty, holds no separator, and is neither `.` nor
/// `..`.
pub open spec fn plain_name(name: Seq<char>) -> bool {
    &&& name.len() > 0
    &&& !name.contains('/')
    &&& name != seq!['.']
    &&& name != seq!['.', '.']
}

/// The path without its last component, if that can be taken away.
pub open spec fn parent_of(path: PathView) -> Option<PathView> {
    if path.len() > 0 && (path.last() is Name || path.last() is Current || path.last() is Up) {
        Some(path.drop_last())
    } else {
        None
    }
}

/// The name that a path ends in.
pub open spec fn name_of(path: PathView) -> Option<Seq<char>> {
    if path.len() > 0 && path.last() is Name {
        Some(path.last()->Name_0)
    } else {
        None
    }
}

/// The volume is one of those that take `.` and `..` for names (`\\?\C:`).
pub open spec fn is_verbatim(volume: Seq<char>) -> bool {
    volume.len() >= 4 && volume.take(4) == seq!['\\', '\\', '?', '\\']
}

/// The path starts with a volume that takes `.` and `..` for names.
pub open spec fn on_verbatim(path: PathView) -> bool {
    path.len() > 0 && (path[0] matches PartView::Prefix(volume) && is_verbatim(volume))
}

/// One component further from `path`, where `.` and `..` cannot be kept: a root leads back to the
/// volume, and `..` takes a name away.
pub open spec fn walked(path: PathView, part: PartView) -> PathView {
    match part {
        PartView::Root => path.take(if path.len() > 0 { 1 } else { 0 }).push(part),
        PartView::Current => path,
        PartView::Up => if path.len() > 0 && path.last() is Name {
            path.drop_last()
        } else {
            path
        },
        _ => path.push(part),
    }
}

/// `rel`, seen from `base`, where `.` and `..` cannot be kept.
pub open spec fn walked_all(base: PathView, rel: PathView) -> PathView
    decreases rel.len(),
{
    if rel.len() == 0 {
        base
    } else {
        walked(walked_all(base, rel.drop_last()), rel.last())
    }
}

/// `rel`, seen from `base`. A path with a root of its own stays what it is, but for the volume,
/// which it takes from `base` where it names none.
pub open spec fn joined(base: PathView, rel: PathView) -> PathView {
    if rel.len() > 0 && rel[0] is Prefix {
        rel
    } else if on_verbatim(base) {
        walked_all(base, rel)
    } else if rel.len() > 0 && rel[0] is Root {
        if base.len() > 0 && base[0] is Prefix {
            seq![base[0]] + rel
        } else {
            rel
        }
    } else if base.len() > 0 && rel.len() > 0 && rel[0] is Current {
        base + rel.skip(1)
    } else {
        base + rel
    }
}

/// The path of the entry `name` of the directory `base`.
pub open spec fn child(base: PathView, name: Seq<char>) -> PathView {
    base.push(PartView::Name(name))
}

/// The position of the last dot of a name, or -1.
pub open spec fn last_dot(name: Seq<char>) -> int
    decreases name.len(),
{
    if name.len() == 0 {
        -1
    } else if name.last() == '.' {
        name.len() - 1
    } else {
        last_dot(name.drop_last())
    }
}

/// A file name without its extension. A dot at the start begins no extension.
pub open spec fn stem(name: Seq<char>) -> Seq<char> {
    if last_dot(name) > 0 {
        name.take(last_dot(name))
    } else {
        name
    }
}

/// What follows the last dot of a file name.
pub open spec fn extension(name: Seq<char>) -> Option<Seq<char>> {
    if last_dot(name) > 0 {
        Some(name.skip(last_dot(name) + 1))
    } else {
        None
    }
}

/// A file name with `ext` as its extension. The empty extension is none, and leaves the stem.
pub open spec fn renamed(name: Seq<char>, ext: Seq<char>) -> Seq<char> {
    if ext.len() == 0 {
        stem(name)
    } else {
        stem(name) + "."@ + ext
    }
}

/// The path with `ext` as the extension of its last name. A path that ends in no name stays as
/// it is.
pub open spec fn with_ext(path: PathView, ext: Seq<char>) -> PathView {
    match name_of(path) {
        Some(name) => child(path.drop_last(), renamed(name, ext)),
        None => path,
    }
}

/// Where the last dot stands.
pub proof fn lemma_last_dot(name: Seq<char>)
    ensures
        -1 <= last_dot(name) < name.len(),
        last_dot(name) >= 0 ==> name[last_dot(name)] == '.',
        forall|i: int| last_dot(name) < i < name.len() ==> #[trigger] name[i] != '.',
    decreases name.len(),
{
    if name.len() > 0 && name.last() != '.' {
        lemma_last_dot(name.drop_last());
        assert forall|i: int| last_dot(name) < i < name.len() implies #[trigger] name[i] != '.' by {
            if i < name.len() - 1 {
                assert(name.drop_last()[i] == name[i]);
            }
        }
    }
}

/// The last dot is the one with no dot behind it.
proof fn lemma_last_dot_unique(name: Seq<char>, at: int)
    requires
        -1 <= at < name.len(),
        at >= 0 ==> name[at] == '.',
        forall|i: int| at < i < name.len() ==> #[trigger] name[i] != '.',
    ensures
        last_dot(name) == at,
{
    lemma_last_dot(name);
    if last_dot(name) < at {
        assert(name[at] != '.');
    }
    if at < last_dot(name) {
        assert(name[last_dot(name)] != '.');
    }
}

/// A component added at the end of a path's list is added to the path.
proof fn lemma_parts_push(parts: Seq<PathPart>, part: PathPart)
    ensures
        parts.push(part).map_values(|p: PathPart| p@) == parts.map_values(|p: PathPart| p@).push(
            part@,
        ),
{
    assert(parts.push(part).map_values(|p: PathPart| p@) =~= parts.map_values(
        |p: PathPart| p@,
    ).push(part@));
}

impl PathPart {
    /// A component, copied.
    pub fn copy(&self) -> (part: PathPart)
        ensures
            part@ == self@,
    {
        match self {
            PathPart::Prefix(s) => PathPart::Prefix(s.clone()),
            PathPart::Root => PathPart::Root,
            PathPart::Current => PathPart::Current,
            PathPart::Up => PathPart::Up,
            PathPart::Name(s) => PathPart::Name(s.clone()),
        }
    }
}

/// The position of the last dot of a name.
fn find_last_dot(chars: &Vec<char>) -> (at: Option<usize>)
    ensures
        match at {
            Some(i) => i == last_dot(chars@) && i < chars@.len(),
            None => last_dot(chars@) == -1,
        },
{
    let mut i: usize = chars.len();
    while i > 0
        invariant
            i <= chars@.len(),
            forall|j: int| i <= j < chars@.len() ==> #[trigger] chars@[j] != '.',
        decreases i,
    {
        if chars[i - 1] == '.' {
            proof {
                lemma_last_dot_unique(chars@, i - 1);
            }
            return Some(i - 1);
        }
        i -= 1;
    }
    proof {
        lemma_last_dot_unique(chars@, -1);
    }
    None
}

/// A file name without its extension.
pub fn file_stem(name: &str) -> (s: String)
    ensures
        s@ == stem(name@),
{
    let chars = chars_of(name);
    proof {
        lemma_last_dot(name@);
    }
    match find_last_dot(&chars) {
        Some(at) => {
            if at == 0 {
                name.to_owned()
            } else {
                text_of(&chars, 0, at)
            }
        },
        None => name.to_owned(),
    }
}

/// The extension of a file name.
pub fn file_extension(name: &str) -> (ext: Option<String>)
    ensures
        opt_text(ext) == extension(name@),
{
    let chars = chars_of(name);
    let n: usize = chars.len();
    proof {
        lemma_last_dot(name@);
    }
    match find_last_dot(&chars) {
        Some(at) => {
            if at == 0 {
                None
            } else {
                Some(text_of(&chars, at + 1, n))
            }
        },
        None => None,
    }
}

impl FilePath {
    /// The first `n` components, copied.
    fn first(&self, n: usize) -> (path: FilePath)
        requires
            n <= self@.len(),
        ensures
            path@ == self@.take(n as int),
    {
        let mut parts: Vec<PathPart> = Vec::new();
        let mut i: usize = 0;
        while i < n
            invariant
                i <= n <= self.parts@.len(),
                parts@.map_values(|p: PathPart| p@) == self@.take(i as int),
            decreases n - i,
        {
            let part = self.parts[i].copy();
            proof {
                lemma_parts_push(parts@, part);
                assert(self@.take(i + 1) =~= self@.take(i as int).push(self@[i as int]));
            }
            parts.push(part);
            i += 1;
        }
        FilePath { parts }
    }

    /// A path, copied.
    pub fn copy(&self) -> (path: FilePath)
        ensures
            path@ == self@,
    {
        assert(self@.take(self@.len() as int) =~= self@);
        self.first(self.parts.len())
    }

    /// The path without its last component, if that can be taken away.
    pub fn parent(&self) -> (parent: Option<FilePath>)
        ensures
            match parent {
                Some(p) => parent_of(self@) == Some(p@),
                None => parent_of(self@) is None,
            },
    {
        let n = self.parts.len();
        if n == 0 {
            return None;
        }
        assert(self@.last() == self.parts@[n - 1]@);
        match &self.parts[n - 1] {
            PathPart::Name(_) | PathPart::Current | PathPart::Up => {
                assert(self@.take(n - 1) =~= self@.drop_last());
                Some(self.first(n - 1))
            },
            _ => None,
        }
    }

    /// The name that the path ends in.
    pub fn file_name(&self) -> (name: Option<String>)
        ensures
            opt_text(name) == name_of(self@),
    {
        let n = self.parts.len();
        if n == 0 {
            return None;
        }
        assert(self@.last() == self.parts@[n - 1]@);
        match &self.parts[n - 1] {
            PathPart::Name(s) => Some(s.clone()),
            _ => None,
        }
    }

    /// Whether the path ends in the name `name`.
    pub fn ends_with(&self, name: &str) -> (ends: bool)
        ensures
            ends == (name_of(self@) == Some(name@)),
    {
        match self.file_name() {
            Some(s) => same_text(s.as_str(), name),
            None => false,
        }
    }

    /// The path of the entry `name` of this directory.
    pub fn child(&self, name: &str) -> (path: FilePath)
        ensures
            path@ == child(self@, name@),
    {
        let mut path = self.copy();
        let part = PathPart::Name(name.to_owned());
        proof {
            lemma_parts_push(path.parts@, part);
        }
        path.parts.push(part);
        path
    }

    /// Whether the path starts with a volume that takes `.` and `..` for names.
    fn starts_verbatim(&self) -> (verbatim: bool)
        ensures
            verbatim == on_verbatim(self@),
    {
        if self.parts.len() == 0 {
            return false;
        }
        assert(self@[0] == self.parts@[0]@);
        match &self.parts[0] {
            PathPart::Prefix(volume) => {
                let chars = chars_of(volume.as_str());
                if chars.len() < 4 {
                    return false;
                }
                let verbatim = chars[0] == '\\' && chars[1] == '\\' && chars[2] == '?' && chars[3]
                    == '\\';
                proof {
                    let start = seq!['\\', '\\', '?', '\\'];
                    let four = volume@.take(4);
                    assert(four[0] == chars@[0] && four[1] == chars@[1] && four[2] == chars@[2]
                        && four[3] == chars@[3]);
                    if verbatim {
                        assert(four =~= start);
                    } else {
                        assert(four[0] != start[0] || four[1] != start[1] || four[2] != start[2]
                            || four[3] != start[3]);
                    }
                }
                verbatim
            },
            _ => false,
        }
    }

    /// One component further, where `.` and `..` cannot be kept.
    fn walk(self, part: &PathPart) -> (path: FilePath)
        ensures
            path@ == walked(self@, part@),
    {
        let n = self.parts.len();
        match part {
            PathPart::Root => {
                let mut path = self.first(if n > 0 { 1 } else { 0 });
                proof {
                    lemma_parts_push(path.parts@, PathPart::Root);
                }
                path.parts.push(PathPart::Root);
                path
            },
            PathPart::Current => self,
            PathPart::Up => {
                if n > 0 {
                    assert(self@.last() == self.parts@[n - 1]@);
                    if let PathPart::Name(_) = &self.parts[n - 1] {
                        assert(self@.take(n - 1) =~= self@.drop_last());
                        return self.first(n - 1);
                    }
                }
                self
            },
            _ => {
                let mut path = self;
                let copy = part.copy();
                proof {
                    lemma_parts_push(path.parts@, copy);
                }
                path.parts.push(copy);
                path
            },
        }
    }

    /// `rel`, seen from this directory, where `.` and `..` cannot be kept.
    fn walk_all(&self, rel: &FilePath) -> (path: FilePath)
        ensures
            path@ == walked_all(self@, rel@),
    {
        let mut path = self.copy();
        let mut i: usize = 0;
        assert(rel@.take(0) =~= Seq::empty());
        while i < rel.parts.len()
            invariant
                i <= rel.parts@.len(),
                path@ == walked_all(self@, rel@.take(i as int)),
            decreases rel.parts@.len() - i,
        {
            proof {
                assert(rel@.take(i + 1).drop_last() =~= rel@.take(i as int));
                assert(rel@.take(i + 1).last() == rel.parts@[i as int]@);
            }
            path = path.walk(&rel.parts[i]);
            i += 1;
        }
        assert(rel@.take(rel.parts@.len() as int) =~= rel@);
        path
    }

    /// `rel`, seen from this directory.
    pub fn join(&self, rel: &FilePath) -> (path: FilePath)
        ensures
            path@ == joined(self@, rel@),
    {
        let n = rel.parts.len();
        if n > 0 {
            assert(rel@[0] == rel.parts@[0]@);
            if let PathPart::Prefix(_) = &rel.parts[0] {
                return rel.copy();
            }
        }
        if self.starts_verbatim() {
            return self.walk_all(rel);
        }
        let mut path = FilePath { parts: Vec::new() };
        let mut from: usize = 0;
        if n > 0 {
            assert(rel@[0] == rel.parts@[0]@);
            match &rel.parts[0] {
                PathPart::Root => {
                    if self.parts.len() > 0 {
                        assert(self@[0] == self.parts@[0]@);
                        match &self.parts[0] {
                            PathPart::Prefix(_) => {
                                path = self.first(1);
                                assert(path@ =~= seq![self@[0]]);
                            },
                            _ => {
                                return rel.copy();
                            },
                        }
                    } else {
                        return rel.copy();
                    }
                },
                PathPart::Current => {
                    path = self.copy();
                    if self.parts.len() > 0 {
                        from = 1;
                    }
                },
                _ => {
                    path = self.copy();
                },
            }
        } else {
            path = self.copy();
        }
        let ghost base = path@;
        let mut i: usize = from;
        assert(base + rel@.subrange(from as int, from as int) =~= base);
        while i < n
            invariant
                from <= i <= n == rel.parts@.len(),
                path@ == base + rel@.subrange(from as int, i as int),
            decreases n - i,
        {
            let part = rel.parts[i].copy();
            proof {
                lemma_parts_push(path.parts@, part);
                assert(rel@[i as int] == rel.parts@[i as int]@);
                assert(base + rel@.subrange(from as int, i + 1) =~= (base + rel@.subrange(
                    from as int,
                    i as int,
                )).push(rel@[i as int]));
            }
            path.parts.push(part);
            i += 1;
        }
        assert(i >= from);
        proof {
            if from == 0 {
                assert(rel@.subrange(0, n as int) =~= rel@);
            } else {
                assert(rel@.subrange(1, n as int) =~= rel@.skip(1));
            }
        }
        path
    }

    /// The path with another extension.
    pub fn with_extension(&self, ext: &str) -> (path: FilePath)
        ensures
            path@ == with_ext(self@, ext@),
    {
        match self.file_name() {
            Some(name) => {
                let base = self.first(self.parts.len() - 1);
                assert(base@ =~= self@.drop_last());
                let stem = file_stem(name.as_str());
                if chars_of(ext).len() == 0 {
                    base.child(stem.as_str())
                } else {
                    base.child(concat3(stem.as_str(), ".", ext).as_str())
                }
            },
            None => self.copy(),
        }
    }
}

/// With the extension `ext` set, a path that ends in a name has that extension, and the directory
/// and the stem that it had.
pub proof fn law_extension_is_set(path: PathView, ext: Seq<char>)
    requires
        name_of(path) is Some,
        name_of(path)->0.len() > 0,
        ext.len() > 0,
        !ext.contains('.'),
    ensures
        parent_of(with_ext(path, ext)) == parent_of(path),
        name_of(with_ext(path, ext)) is Some,
        stem(name_of(with_ext(path, ext))->0) == stem(name_of(path)->0),
        extension(name_of(with_ext(path, ext))->0) == Some(ext),
{
    let name = name_of(path)->0;
    let new_name = stem(name) + "."@ + ext;
    reveal_strlit(".");
    lemma_last_dot(name);
    assert(stem(name).len() > 0);
    assert forall|i: int| stem(name).len() < i < new_name.len() implies #[trigger] new_name[i]
        != '.' by {
        assert(new_name[i] == ext[i - stem(name).len() - 1]);
        assert(ext.contains(ext[i - stem(name).len() - 1]));
    }
    lemma_last_dot_unique(new_name, stem(name).len() as int);
    assert(new_name.take(stem(name).len() as int) =~= stem(name));
    assert(new_name.skip(stem(name).len() as int + 1) =~= ext);
    assert(with_ext(path, ext).drop_last() =~= path.drop_last());
}

/// A name inside a directory: its parent is the directory, and its name is the one given.
pub proof fn law_child_of_directory(base: PathView, name: Seq<char>)
    ensures
        parent_of(child(base, name)) == Some(base),
        name_of(child(base, name)) == Some(name),
        joined(base, seq![PartView::Name(name)]) == child(base, name),
{
    assert(child(base, name).drop_last() =~= base);
    let rel = seq![PartView::Name(name)];
    reveal_with_fuel(walked_all, 2);
    assert(rel.drop_last() =~= Seq::empty());
    assert(joined(base, rel) =~= child(base, name));
}

/// The last component of a path can be taken away, unless it is the root or a volume; and it is the
/// path's name only if it is a name.
pub proof fn law_last_component(base: PathView, part: PartView)
    ensures
        part is Name || part is Up || part is Current ==> parent_of(base.push(part)) == Some(base),
        part is Root || part is Prefix ==> parent_of(base.push(part)) is None,
        parent_of(Seq::empty()) is None,
        part matches PartView::Name(name) ==> name_of(base.push(part)) == Some(name),
        !(part is Name) ==> name_of(base.push(part)) is None,
        name_of(Seq::empty()) is None,
{
    assert(base.push(part).drop_last() =~= base);
}

/// A name with an extension is its stem, a dot and the extension, of which the stem is not empty and
/// the extension has no dot. A name without one has no dot, but for one at its start, and is its own
/// stem.
pub proof fn law_stem_and_extension(name: Seq<char>)
    ensures
        extension(name) matches Some(ext) ==> (name == stem(name) + seq!['.'] + ext && !ext.contains(
            '.',
        ) && stem(name).len() > 0),
        extension(name) is None ==> stem(name) == name && forall|i: int|
            0 < i < name.len() ==> #[trigger] name[i] != '.',
{
    lemma_last_dot(name);
    let d = last_dot(name);
    if d > 0 {
        let ext = name.skip(d + 1);
        assert(name =~= name.take(d) + seq!['.'] + ext);
        assert forall|i: int| 0 <= i < ext.len() implies #[trigger] ext[i] != '.' by {
            assert(ext[i] == name[d + 1 + i]);
        }
    }
}

/// A name that is put together from a stem, a dot and an extension without a dot is taken apart into
/// them.
pub proof fn law_name_is_taken_apart(front: Seq<char>, ext: Seq<char>)
    requires
        front.len() > 0,
        !ext.contains('.'),
    ensures
        stem(front + seq!['.'] + ext) == front,
        extension(front + seq!['.'] + ext) == Some(ext),
{
    let name = front + seq!['.'] + ext;
    let n = front.len() as int;
    assert forall|i: int| n < i < name.len() implies #[trigger] name[i] != '.' by {
        assert(name[i] == ext[i - n - 1]);
        assert(ext.contains(ext[i - n - 1]));
    }
    lemma_last_dot_unique(name, n);
    assert(name.take(n) =~= front);
    assert(name.skip(n + 1) =~= ext);
}

/// Setting an extension changes the last name only: its stem stays, the new extension stands behind a
/// dot, and the empty one is none. A path that ends in no name stays as it is.
pub proof fn law_extension_is_written(base: PathView, name: Seq<char>, ext: Seq<char>, path: PathView)
    ensures
        ext.len() > 0 ==> with_ext(base.push(PartView::Name(name)), ext) == base.push(
            PartView::Name(stem(name) + seq!['.'] + ext),
        ),
        with_ext(base.push(PartView::Name(name)), Seq::empty()) == base.push(
            PartView::Name(stem(name)),
        ),
        path.len() == 0 || !(path.last() is Name) ==> with_ext(path, ext) == path,
{
    reveal_strlit(".");
    assert("."@ =~= seq!['.']);
    assert(base.push(PartView::Name(name)).drop_last() =~= base);
}

/// A path is joined to a directory by writing it behind the directory, but for a `.` at its start. A
/// path with a root of its own takes nothing from the directory but the volume, and one with a
/// volume of its own takes nothing at all.
pub proof fn law_join(base: PathView, rel: PathView)
    ensures
        rel.len() == 0 ==> joined(base, rel) == base,
        rel.len() > 0 && rel[0] is Prefix ==> joined(base, rel) == rel,
        rel.len() > 0 && rel[0] is Root && (base.len() == 0 || !(base[0] is Prefix)) ==> joined(
            base,
            rel,
        ) == rel,
        rel.len() > 0 && (rel[0] is Name || rel[0] is Up) && (base.len() == 0 || !(
        base[0] is Prefix)) ==> joined(base, rel) == base + rel,
        base.len() > 0 && !(base[0] is Prefix) ==> joined(base, seq![PartView::Current] + rel)
            == base + rel,
        joined(Seq::empty(), rel) == rel,
        base.len() > 0 && (base[0] matches PartView::Prefix(volume) && (volume.len() < 4 || volume[2]
            != '?')) && rel.len() > 0 && (rel[0] is Name || rel[0] is Up) ==> joined(base, rel)
            == base + rel,
        base.len() > 0 && (base[0] matches PartView::Prefix(volume) && (volume.len() < 4 || volume[2]
            != '?')) && rel.len() > 0 && rel[0] is Root ==> joined(base, rel) == seq![base[0]]
            + rel,
{
    reveal_with_fuel(walked_all, 1);
    if base.len() > 0 && base[0] is Prefix {
        let volume = base[0]->Prefix_0;
        if volume.len() >= 4 && volume[2] != '?' {
            assert(volume.take(4)[2] != '?');
            assert(!is_verbatim(volume));
        }
    }
    assert(base + rel.skip(0) =~= base + rel);
    if base.len() > 0 && !(base[0] is Prefix) {
        let dotted = seq![PartView::Current] + rel;
        assert(dotted[0] is Current);
        assert(dotted.skip(1) =~= rel);
    }
    if rel.len() == 0 {
        assert(base + rel =~= base);
    }
    assert(Seq::<PartView>::empty() + rel =~= rel);
}

/// From a directory on a volume that takes `.` and `..` for names, a path is walked one component at
/// a time: a name is entered, `.` stays, `..` leaves a name again, and a root leads back to the
/// volume.
pub proof fn law_join_on_verbatim(base: PathView, rel: PathView, volume: Seq<char>, name: Seq<char>)
    requires
        base.len() > 0,
        base[0] == PartView::Prefix(seq!['\\', '\\', '?', '\\'] + volume),
        rel.len() > 0 ==> !(rel[0] is Prefix),
    ensures
        joined(base, rel.push(PartView::Name(name))) == joined(base, rel).push(PartView::Name(name)),
        joined(base, rel.push(PartView::Current)) == joined(base, rel),
        joined(base, rel.push(PartView::Name(name)).push(PartView::Up)) == joined(base, rel),
        joined(base, rel.push(PartView::Root)).len() == 2,
        joined(base, rel.push(PartView::Root))[0] == base[0],
{
    let start = seq!['\\', '\\', '?', '\\'];
    assert((start + volume).take(4) =~= start);
    assert(on_verbatim(base));
    lemma_volume_stays(base, rel);
    let named = rel.push(PartView::Name(name));
    assert(named.drop_last() =~= rel);
    assert(rel.push(PartView::Current).drop_last() =~= rel);
    assert(rel.push(PartView::Root).drop_last() =~= rel);
    assert(named.push(PartView::Up).drop_last() =~= named);
    assert(walked_all(base, named).drop_last() =~= walked_all(base, rel));
}

/// A walk never leaves the volume that it starts on.
proof fn lemma_volume_stays(base: PathView, rel: PathView)
    requires
        base.len() > 0,
        base[0] is Prefix,
        rel.len() > 0 ==> !(rel[0] is Prefix),
    ensures
        walked_all(base, rel).len() > 0,
        walked_all(base, rel)[0] == base[0],
    decreases rel.len(),
{
    if rel.len() > 0 {
        lemma_volume_stays(base, rel.drop_last());
    }
}

/// A path and its components are seen as they are, each with its text.
pub proof fn law_components_are_seen(text: String, path: FilePath, i: int)
    requires
        0 <= i < path.parts@.len(),
    ensures
        PathPart::Prefix(text)@ == PartView::Prefix(text@),
        PathPart::Root@ == PartView::Root,
        PathPart::Current@ == PartView::Current,
        PathPart::Up@ == PartView::Up,
        PathPart::Name(text)@ == PartView::Name(text@),
        path@.len() == path.parts@.len(),
        path@[i] == path.parts@[i]@,
{
}

} // verus!
