//! The model of paths: a path string is a `Seq<char>`, and a location is the
//! sequence of the names that lead to it from the top of the filesystem.

use vstd::prelude::*;
use crate::codec::decoded;
use crate::error::{NASError, ResolveError};

verus! {

/// The segment `.`, which stands for the directory it occurs in.
pub open spec fn is_current(segment: Seq<char>) -> bool {
    segment.len() == 1 && segment[0] == '.'
}

/// The segment `..`, which stands for the parent directory.
pub open spec fn is_parent(segment: Seq<char>) -> bool {
    segment.len() == 2 && segment[0] == '.' && segment[1] == '.'
}

/// A segment that names a node: not empty, neither `.` nor `..`, and free of
/// separators and NUL characters.
pub open spec fn is_name(segment: Seq<char>) -> bool {
    &&& segment.len() > 0
    &&& !is_current(segment)
    &&& !is_parent(segment)
    &&& !segment.contains('/')
    &&& !segment.contains('\0')
}

/// Every element names a node.
pub open spec fn is_canonical(components: Seq<Seq<char>>) -> bool {
    forall|i: int| 0 <= i < components.len() ==> is_name(#[trigger] components[i])
}

/// The pieces of `s` between its separators. A string with `n` separators has
/// `n + 1` segments, some of which may be empty.
pub open spec fn split_segments(s: Seq<char>) -> Seq<Seq<char>>
    decreases s.len(),
{
    if s.len() == 0 {
        seq![Seq::<char>::empty()]
    } else {
        let before = split_segments(s.drop_last());
        if s.last() == '/' {
            before.push(Seq::<char>::empty())
        } else {
            before.drop_last().push(before.last().push(s.last()))
        }
    }
}

/// Where one segment leads from the location `at`: an empty segment and `.`
/// stay, `..` moves to the parent (the top is its own parent), and anything
/// else descends.
pub open spec fn enter(at: Seq<Seq<char>>, segment: Seq<char>) -> Seq<Seq<char>> {
    if segment.len() == 0 || is_current(segment) {
        at
    } else if is_parent(segment) {
        if at.len() > 0 {
            at.drop_last()
        } else {
            at
        }
    } else {
        at.push(segment)
    }
}

/// Where the segments lead, taken in order, from the location `from`.
pub open spec fn walk(from: Seq<Seq<char>>, segments: Seq<Seq<char>>) -> Seq<Seq<char>>
    decreases segments.len(),
{
    if segments.len() == 0 {
        from
    } else {
        enter(walk(from, segments.drop_last()), segments.last())
    }
}

/// The location that an absolute path string denotes.
pub open spec fn canonical(s: Seq<char>) -> Seq<Seq<char>> {
    walk(Seq::empty(), split_segments(s))
}

/// A path string that starts at the top of the filesystem.
pub open spec fn is_absolute(s: Seq<char>) -> bool {
    s.len() > 0 && s[0] == '/'
}

/// The names joined by single separators.
pub open spec fn render_relative(components: Seq<Seq<char>>) -> Seq<char>
    decreases components.len(),
{
    if components.len() == 0 {
        Seq::empty()
    } else if components.len() == 1 {
        components[0]
    } else {
        render_relative(components.drop_last()) + seq!['/'] + components.last()
    }
}

/// The absolute path string of a location.
pub open spec fn render_absolute(components: Seq<Seq<char>>) -> Seq<char> {
    seq!['/'] + render_relative(components)
}

/// Whether following the segments from a location with nothing above it
/// would at some point take `..` with nowhere left to go.
pub open spec fn climbs_out(segments: Seq<Seq<char>>) -> bool
    decreases segments.len(),
{
    if segments.len() == 0 {
        false
    } else {
        climbs_out(segments.drop_last()) || (is_parent(segments.last()) && walk(
            Seq::empty(),
            segments.drop_last(),
        ).len() == 0)
    }
}

/// The path string of one user: the user's name, a separator, and the path
/// that the user asked for.
pub open spec fn scoped(username: Seq<char>, path: Seq<char>) -> Seq<char> {
    username + seq!['/'] + path
}

/// The location that `relative` denotes when it is joined to the root: an
/// absolute path replaces the root, any other path is followed from it.
pub open spec fn destination(root: Seq<Seq<char>>, relative: Seq<char>) -> Seq<Seq<char>> {
    if is_absolute(relative) {
        canonical(relative)
    } else {
        walk(root, split_segments(relative))
    }
}

/// What resolving `relative` under `root` gives: its destination, if the
/// root's names lead it, name by name. A path that holds a NUL character is
/// no path.
pub open spec fn resolved(root: Seq<Seq<char>>, relative: Seq<char>) -> Result<
    Seq<Seq<char>>,
    ResolveError,
> {
    if relative.contains('\0') {
        Err(ResolveError::InvalidPath)
    } else if root.is_prefix_of(destination(root, relative)) {
        Ok(destination(root, relative))
    } else {
        Err(ResolveError::OutsideRoot)
    }
}

/// Whether one of the segments of the path is `..`.
pub open spec fn has_parent_segment(relative: Seq<char>) -> bool {
    exists|i: int|
        0 <= i < split_segments(relative).len() && is_parent(#[trigger] split_segments(relative)[i])
}

/// What decoding a raw segment and resolving the decoded path under `root`
/// gives.
pub open spec fn located(root: Seq<Seq<char>>, raw: Seq<char>) -> Result<Seq<Seq<char>>, NASError> {
    match decoded(raw) {
        Err(e) => Err(NASError::Decode(e)),
        Ok(text) => match resolved(root, text) {
            Ok(target) => Ok(target),
            Err(e) => Err(NASError::Resolve(e)),
        },
    }
}

/// A string always has at least one segment.
pub proof fn lemma_split_nonempty(s: Seq<char>)
    ensures
        split_segments(s).len() >= 1,
    decreases s.len(),
{
    if s.len() > 0 {
        lemma_split_nonempty(s.drop_last());
    }
}

/// No segment holds a separator, and a segment holds a NUL character only if
/// the string does.
pub proof fn lemma_split_clean(s: Seq<char>)
    ensures
        forall|i: int|
            0 <= i < split_segments(s).len() ==> {
                &&& !(#[trigger] split_segments(s)[i]).contains('/')
                &&& (!s.contains('\0') ==> !split_segments(s)[i].contains('\0'))
            },
    decreases s.len(),
{
    if s.len() > 0 {
        let shorter = s.drop_last();
        let before = split_segments(shorter);
        lemma_split_clean(shorter);
        lemma_split_nonempty(shorter);
        assert(s.contains('\0') || !shorter.contains('\0'));
        assert forall|i: int| 0 <= i < split_segments(s).len() implies {
            &&& !(#[trigger] split_segments(s)[i]).contains('/')
            &&& (!s.contains('\0') ==> !split_segments(s)[i].contains('\0'))
        } by {
            if i == before.len() - 1 && s.last() != '/' {
                let grown = before.last().push(s.last());
                assert(grown.contains('/') ==> before.last().contains('/'));
                assert(grown.contains('\0') ==> before.last().contains('\0') || s.contains('\0'));
            }
        }
    }
}

/// Walking from a canonical location over segments without separators or NUL
/// characters ends at a canonical location.
pub proof fn lemma_walk_canonical(from: Seq<Seq<char>>, segments: Seq<Seq<char>>)
    requires
        is_canonical(from),
        forall|i: int|
            0 <= i < segments.len() ==> !(#[trigger] segments[i]).contains('/')
                && !segments[i].contains('\0'),
    ensures
        is_canonical(walk(from, segments)),
    decreases segments.len(),
{
    if segments.len() > 0 {
        let earlier = segments.drop_last();
        lemma_walk_canonical(from, segments.drop_last());
    }
}

/// Splitting distributes over a separator: the segments of `a/b` are those of
/// `a` followed by those of `b`.
pub proof fn lemma_split_concat(a: Seq<char>, b: Seq<char>)
    ensures
        split_segments(a + seq!['/'] + b) == split_segments(a) + split_segments(b),
    decreases b.len(),
{
    let whole = a + seq!['/'] + b;
    if b.len() == 0 {
        assert(whole.drop_last() == a);
        assert(split_segments(a).push(Seq::<char>::empty()) == split_segments(a) + split_segments(
            b,
        ));
    } else {
        let shorter = b.drop_last();
        lemma_split_concat(a, shorter);
        lemma_split_nonempty(shorter);
        assert(whole.drop_last() == a + seq!['/'] + shorter);
        let left = split_segments(a);
        let right = split_segments(shorter);
        let before = left + right;
        if b.last() != '/' {
            assert(before.drop_last().push(before.last().push(b.last())) == left
                + right.drop_last().push(right.last().push(b.last())));
        }
    }
}

/// Walking over two runs of segments is walking over the first and then, from
/// where that ends, over the second.
pub proof fn lemma_walk_concat(from: Seq<Seq<char>>, a: Seq<Seq<char>>, b: Seq<Seq<char>>)
    ensures
        walk(from, a + b) == walk(walk(from, a), b),
    decreases b.len(),
{
    if b.len() > 0 {
        lemma_walk_concat(from, a, b.drop_last());
        assert((a + b).drop_last() == a + b.drop_last());
    }
}

/// Segments that never climb out lead, from any location, to that location
/// followed by where they lead on their own.
pub proof fn lemma_walk_inside(from: Seq<Seq<char>>, segments: Seq<Seq<char>>)
    requires
        !climbs_out(segments),
    ensures
        walk(from, segments) == from + walk(Seq::empty(), segments),
    decreases segments.len(),
{
    if segments.len() > 0 {
        lemma_walk_inside(from, segments.drop_last());
    }
}

/// Names lead downwards one by one.
pub proof fn lemma_walk_names(from: Seq<Seq<char>>, names: Seq<Seq<char>>)
    requires
        is_canonical(names),
    ensures
        walk(from, names) == from + names,
    decreases names.len(),
{
    if names.len() > 0 {
        lemma_walk_names(from, names.drop_last());
    }
}

/// A string without separators is its own single segment.
pub proof fn lemma_split_single(name: Seq<char>)
    requires
        !name.contains('/'),
    ensures
        split_segments(name) == seq![name],
    decreases name.len(),
{
    if name.len() == 0 {
        assert(name == Seq::<char>::empty());
    } else {
        let shorter = name.drop_last();
        assert(!shorter.contains('/'));
        lemma_split_single(shorter);
        assert(seq![shorter].drop_last().push(shorter.push(name.last())) == seq![name]) by {
            assert(shorter.push(name.last()) == name);
        }
    }
}

/// The segments of a rendered run of names are the names.
pub proof fn lemma_split_render(names: Seq<Seq<char>>)
    requires
        is_canonical(names),
        names.len() >= 1,
    ensures
        split_segments(render_relative(names)) == names,
    decreases names.len(),
{
    lemma_split_single(names.last());
    if names.len() > 1 {
        let earlier = names.drop_last();
        lemma_split_render(earlier);
        lemma_split_concat(render_relative(earlier), names.last());
    }
}

/// Rendering a canonical location and reading the string back gives the
/// location again.
pub proof fn lemma_canonical_render(names: Seq<Seq<char>>)
    requires
        is_canonical(names),
    ensures
        canonical(render_absolute(names)) == names,
        is_absolute(render_absolute(names)),
{
    let nothing = Seq::<Seq<char>>::empty();
    let text = render_relative(names);
    lemma_split_concat(Seq::<char>::empty(), text);
    let first = split_segments(Seq::<char>::empty());
    lemma_walk_concat(nothing, first, split_segments(text));
    assert(walk(nothing, first) == nothing) by {
        reveal_with_fuel(walk, 2);
    }
    if names.len() > 0 {
        lemma_split_render(names);
        lemma_walk_names(nothing, names);
    }
}

} // verus!
