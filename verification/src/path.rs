//! Lexical path resolution confined to a storage root.

use vstd::prelude::*;
use crate::codec::decode;
use crate::error::{NASError, ResolveError};
use crate::path_model::{
    canonical, is_absolute, is_canonical, lemma_split_clean, lemma_walk_canonical, located,
    render_absolute, render_relative, resolved, scoped, split_segments, walk,
};
use crate::text::{copy_chars, from_chars, same_chars, to_chars};

verus! {

/// The character sequences held by a vector of character vectors.
pub open spec fn names_of(v: Seq<Vec<char>>) -> Seq<Seq<char>> {
    Seq::new(v.len(), |i: int| v[i]@)
}

/// Splits a path string at its separators.
pub fn split(s: &Vec<char>) -> (out: Vec<Vec<char>>)
    ensures
        names_of(out@) == split_segments(s@),
{
    let mut done: Vec<Vec<char>> = Vec::new();
    let mut current: Vec<char> = Vec::new();
    let mut i: usize = 0;
    while i < s.len()
        invariant
            i <= s.len(),
            names_of(done@).push(current@) == split_segments(s@.take(i as int)),
        decreases s.len() - i,
    {
        let c = s[i];
        assert(s@.take(i as int + 1).drop_last() == s@.take(i as int));
        if c == '/' {
            done.push(current);
            current = Vec::new();
        } else {
            current.push(c);
        }
        i += 1;
    }
    assert(s@.take(s.len() as int) == s@);
    done.push(current);
    done
}

/// A copy of a vector of names.
pub fn copy_names(v: &Vec<Vec<char>>) -> (out: Vec<Vec<char>>)
    ensures
        names_of(out@) == names_of(v@),
{
    let mut out: Vec<Vec<char>> = Vec::new();
    let mut i: usize = 0;
    while i < v.len()
        invariant
            i <= v.len(),
            names_of(out@) == names_of(v@).take(i as int),
        decreases v.len() - i,
    {
        let ghost before = names_of(out@);
        let name = copy_chars(&v[i]);
        out.push(name);
        assert(names_of(out@) == before.push(v@[i as int]@));
        i += 1;
    }
    out
}

/// Whether `path` begins with all the names of `prefix`.
pub fn begins_with(path: &Vec<Vec<char>>, prefix: &Vec<Vec<char>>) -> (yes: bool)
    ensures
        yes == names_of(prefix@).is_prefix_of(names_of(path@)),
{
    if prefix.len() > path.len() {
        return false;
    }
    let ghost p = names_of(prefix@);
    let ghost q = names_of(path@);
    let mut i: usize = 0;
    while i < prefix.len()
        invariant
            i <= prefix.len(),
            prefix.len() <= path.len(),
            p == names_of(prefix@),
            q == names_of(path@),
            p.take(i as int) == q.take(i as int),
        decreases prefix.len() - i,
    {
        if !same_chars(&path[i], &prefix[i]) {
            assert(p[i as int] != q[i as int]);
            return false;
        }
        i += 1;
    }
    true
}

/// Follows the segments in order from the location `from`.
pub fn walk_from(from: Vec<Vec<char>>, segments: &Vec<Vec<char>>) -> (at: Vec<Vec<char>>)
    ensures
        names_of(at@) == walk(names_of(from@), names_of(segments@)),
{
    let ghost start = names_of(from@);
    let ghost all = names_of(segments@);
    let mut at = from;
    let mut i: usize = 0;
    while i < segments.len()
        invariant
            i <= segments.len(),
            all == names_of(segments@),
            names_of(at@) == walk(start, all.take(i as int)),
        decreases segments.len() - i,
    {
        let segment = &segments[i];
        assert(all.take(i as int + 1).drop_last() == all.take(i as int));
        let n: usize = segment.len();
        if n == 0 || (n == 1 && segment[0] == '.') {
        } else if n == 2 && segment[0] == '.' && segment[1] == '.' {
            if at.len() > 0 {
                at.pop();
            }
        } else {
            at.push(copy_chars(segment));
        }
        i += 1;
    }
    assert(all.take(segments.len() as int) == all);
    at
}

/// Whether a NUL character occurs in `s`.
pub fn has_nul(s: &Vec<char>) -> (found: bool)
    ensures
        found == s@.contains('\0'),
{
    let mut i: usize = 0;
    while i < s.len()
        invariant
            i <= s.len(),
            forall|k: int| 0 <= k < i ==> s@[k] != '\0',
        decreases s.len() - i,
    {
        if s[i] == '\0' {
            return true;
        }
        i += 1;
    }
    false
}

/// The names from position `start` on, joined by single separators.
fn render_names(names: &Vec<Vec<char>>, start: usize) -> (out: Vec<char>)
    requires
        start <= names.len(),
    ensures
        out@ == render_relative(names_of(names@).skip(start as int)),
{
    let ghost all = names_of(names@);
    let mut out: Vec<char> = Vec::new();
    let mut i: usize = start;
    while i < names.len()
        invariant
            start <= i <= names.len(),
            all == names_of(names@),
            out@ == render_relative(all.subrange(start as int, i as int)),
        decreases names.len() - i,
    {
        assert(all.subrange(start as int, i as int + 1).drop_last() == all.subrange(
            start as int,
            i as int,
        ));
        if i > start {
            out.push('/');
        }
        let name = &names[i];
        let ghost lead = out@;
        let mut k: usize = 0;
        while k < name.len()
            invariant
                k <= name.len(),
                out@ == lead + name@.take(k as int),
            decreases name.len() - k,
        {
            out.push(name[k]);
            k += 1;
        }
        i += 1;
    }
    out
}

/// The absolute path string of the location that the names lead to.
fn render_from_top(names: &Vec<Vec<char>>) -> (out: String)
    ensures
        out@ == render_absolute(names_of(names@)),
{
    let mut chars: Vec<char> = Vec::new();
    chars.push('/');
    let mut rest = render_names(names, 0);
    assert(names_of(names@).skip(0) == names_of(names@));
    chars.append(&mut rest);
    from_chars(&chars)
}

/// The directory that every resolved path must be, or lie below.
#[derive(Debug)]
pub struct StorageRoot {
    components: Vec<Vec<char>>,
}

impl View for StorageRoot {
    type V = Seq<Seq<char>>;

    /// The names that lead to the root from the top of the filesystem.
    closed spec fn view(&self) -> Seq<Seq<char>> {
        names_of(self.components@)
    }
}

impl StorageRoot {
    #[verifier::type_invariant]
    spec fn well_formed(&self) -> bool {
        is_canonical(names_of(self.components@))
    }

    /// Reads the root from an absolute path string. A string that is not
    /// absolute, or holds a NUL character, is no root.
    pub fn new(path: &str) -> (res: Result<StorageRoot, ResolveError>)
        ensures
            is_absolute(path@) && !path@.contains('\0') ==> res is Ok && res->Ok_0@ == canonical(
                path@,
            ) && is_canonical(res->Ok_0@),
            !(is_absolute(path@) && !path@.contains('\0')) ==> res == Err::<StorageRoot, _>(
                ResolveError::InvalidPath,
            ),
    {
        let chars = to_chars(path);
        if chars.len() == 0 || chars[0] != '/' || has_nul(&chars) {
            return Err(ResolveError::InvalidPath);
        }
        let segments = split(&chars);
        let top: Vec<Vec<char>> = Vec::new();
        proof {
            lemma_split_clean(chars@);
            assert(names_of(top@) == Seq::<Seq<char>>::empty());
            lemma_walk_canonical(Seq::empty(), names_of(segments@));
        }
        let components = walk_from(top, &segments);
        Ok(StorageRoot { components })
    }

    /// The root as an absolute path string.
    pub fn path_string(&self) -> (out: String)
        ensures
            out@ == render_absolute(self@),
    {
        render_from_top(&self.components)
    }
}

/// A logical path below the storage root, as a request gives it.
#[derive(Debug)]
pub struct RelativePath {
    path: String,
}

impl View for RelativePath {
    type V = Seq<char>;

    closed spec fn view(&self) -> Seq<char> {
        self.path@
    }
}

impl RelativePath {
    /// The path `path` in the namespace of the user `username`.
    pub fn new(path: &str, username: &str) -> (out: RelativePath)
        ensures
            out@ == scoped(username@, path@),
    {
        let mut chars = to_chars(username);
        chars.push('/');
        let mut rest = to_chars(path);
        chars.append(&mut rest);
        RelativePath { path: from_chars(&chars) }
    }

    /// The path `path` as it stands, in nobody's namespace.
    pub fn unscoped(path: &str) -> (out: RelativePath)
        ensures
            out@ == path@,
    {
        RelativePath { path: path.to_owned() }
    }

    /// The path string.
    pub fn as_str(&self) -> (out: &str)
        ensures
            out@ == self@,
    {
        self.path.as_str()
    }
}

/// A location that is the storage root or lies below it.
#[derive(Debug)]
pub struct AbsolutePath {
    components: Vec<Vec<char>>,
    root_len: usize,
}

impl View for AbsolutePath {
    type V = Seq<Seq<char>>;

    /// The names that lead to the location from the top of the filesystem.
    closed spec fn view(&self) -> Seq<Seq<char>> {
        names_of(self.components@)
    }
}

impl AbsolutePath {
    #[verifier::type_invariant]
    spec fn well_formed(&self) -> bool {
        &&& is_canonical(names_of(self.components@))
        &&& self.root_len <= self.components.len()
    }

    /// How many of the leading names are those of the storage root.
    pub closed spec fn root_len(&self) -> nat {
        self.root_len as nat
    }

    /// The storage root that the location was resolved under.
    pub open spec fn root(&self) -> Seq<Seq<char>> {
        self@.take(self.root_len() as int)
    }

    /// The names that lead to the location from the storage root.
    pub open spec fn below_root(&self) -> Seq<Seq<char>> {
        self@.skip(self.root_len() as int)
    }

    /// The last name of the location, or the empty string at the top of the
    /// filesystem.
    pub open spec fn base_name(&self) -> Seq<char> {
        if self@.len() > 0 {
            self@.last()
        } else {
            Seq::empty()
        }
    }

    /// The location as an absolute path string.
    pub fn absolute_string(&self) -> (out: String)
        ensures
            out@ == render_absolute(self@),
            is_canonical(self@),
            self.root_len() <= self@.len(),
    {
        proof {
            use_type_invariant(self);
        }
        render_from_top(&self.components)
    }

    /// The path from the storage root to the location: the absolute path with
    /// the root stripped.
    pub fn strip_root(&self) -> (out: RelativePath)
        ensures
            out@ == render_relative(self.below_root()),
    {
        proof {
            use_type_invariant(self);
        }
        let chars = render_names(&self.components, self.root_len);
        RelativePath { path: from_chars(&chars) }
    }

    /// The characters of the last name, or none at the top of the filesystem.
    pub fn base_name_chars(&self) -> (out: Vec<char>)
        ensures
            out@ == self.base_name(),
    {
        let n: usize = self.components.len();
        if n == 0 {
            Vec::new()
        } else {
            copy_chars(&self.components[n - 1])
        }
    }

    /// The last name of the location, if it has one.
    pub fn file_name(&self) -> (out: Option<String>)
        ensures
            self@.len() == 0 ==> out is None,
            self@.len() > 0 ==> out is Some && out->Some_0@ == self@.last(),
    {
        let n: usize = self.components.len();
        if n == 0 {
            None
        } else {
            Some(from_chars(&self.components[n - 1]))
        }
    }
}

/// Resolves relative paths under one fixed storage root.
#[derive(Debug)]
pub struct PathResolver {
    pub root: StorageRoot,
}

impl PathResolver {
    /// A resolver for the given root.
    pub fn new(root: StorageRoot) -> (out: PathResolver)
        ensures
            out.root == root,
    {
        PathResolver { root }
    }

    /// Resolves `relative` to a location under the root. A path that leaves
    /// the root is refused, and so is one that holds a NUL character.
    pub fn resolve(&self, relative: &RelativePath) -> (res: Result<AbsolutePath, ResolveError>)
        ensures
            (match resolved(self.root@, relative@) {
                Ok(target) => res is Ok && res->Ok_0@ == target && res->Ok_0.root()
                    == self.root@ && res->Ok_0.root_len() == self.root@.len(),
                Err(e) => res == Err::<AbsolutePath, _>(e),
            }),
            res is Ok ==> self.root@.is_prefix_of(res->Ok_0@) && is_canonical(res->Ok_0@),
    {
        let chars = to_chars(relative.as_str());
        if has_nul(&chars) {
            return Err(ResolveError::InvalidPath);
        }
        let segments = split(&chars);
        let start: Vec<Vec<char>> = if chars.len() > 0 && chars[0] == '/' {
            Vec::new()
        } else {
            copy_names(&self.root.components)
        };
        proof {
            use_type_invariant(&self.root);
            lemma_split_clean(chars@);
            if is_absolute(chars@) {
                assert(names_of(start@) == Seq::<Seq<char>>::empty());
            }
            lemma_walk_canonical(names_of(start@), names_of(segments@));
        }
        let target = walk_from(start, &segments);
        if begins_with(&target, &self.root.components) {
            let root_len: usize = self.root.components.len();
            let found = AbsolutePath { components: target, root_len };
            Ok(found)
        } else {
            Err(ResolveError::OutsideRoot)
        }
    }

    /// Decodes a percent-encoded path and resolves it under the root.
    pub fn locate(&self, raw: &str) -> (res: Result<AbsolutePath, NASError>)
        ensures
            (match located(self.root@, raw@) {
                Ok(target) => res is Ok && res->Ok_0@ == target && res->Ok_0.root()
                    == self.root@ && res->Ok_0.root_len() == self.root@.len(),
                Err(e) => res == Err::<AbsolutePath, _>(e),
            }),
            res is Ok ==> self.root@.is_prefix_of(res->Ok_0@) && is_canonical(res->Ok_0@),
    {
        let text = match decode(raw) {
            Ok(text) => text,
            Err(e) => {
                return Err(NASError::Decode(e));
            },
        };
        let relative = RelativePath { path: text };
        match self.resolve(&relative) {
            Ok(found) => Ok(found),
            Err(e) => Err(NASError::Resolve(e)),
        }
    }
}

} // verus!
