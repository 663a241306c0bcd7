//! What holds of path resolution for every root and every path.

use vstd::prelude::*;
use crate::error::ResolveError;
use crate::path_model::{
    canonical, climbs_out, destination, has_parent_segment, is_absolute, is_canonical,
    is_parent, lemma_split_clean, lemma_split_concat, lemma_split_render, lemma_walk_canonical,
    lemma_walk_concat, lemma_walk_inside, lemma_walk_names, render_relative, resolved, scoped,
    split_segments, walk,
};

verus! {

/// The string that joining `relative` to the root string gives: an absolute
/// path replaces the root, any other path follows it after a separator.
pub open spec fn joined(root: Seq<char>, relative: Seq<char>) -> Seq<char> {
    if is_absolute(relative) {
        relative
    } else {
        root + seq!['/'] + relative
    }
}

/// The canonical form of a path string: the names it leads to, joined by
/// single separators.
pub open spec fn canonical_form(s: Seq<char>) -> Seq<char> {
    render_relative(canonical(s))
}

/// Confinement: whatever the path, a location that resolution gives is
/// canonical and led, name by name, by the root.
pub proof fn lemma_resolved_is_confined(root: Seq<Seq<char>>, relative: Seq<char>)
    requires
        is_canonical(root),
    ensures
        resolved(root, relative) matches Ok(target) ==> root.is_prefix_of(target) && is_canonical(
            target,
        ),
        relative.contains('\0') <==> resolved(root, relative) == Err::<Seq<Seq<char>>, ResolveError>(
            ResolveError::InvalidPath,
        ),
{
    if !relative.contains('\0') {
        lemma_split_clean(relative);
        if is_absolute(relative) {
            lemma_walk_canonical(Seq::empty(), split_segments(relative));
        } else {
            lemma_walk_canonical(root, split_segments(relative));
        }
    }
}

/// Resolution reads the joined path: the location it tests against the root
/// is the one that the string `joined(root_text, relative)` denotes.
pub proof fn lemma_resolved_reads_joined_path(root_text: Seq<char>, relative: Seq<char>)
    requires
        !relative.contains('\0'),
    ensures
        ({
            let root = canonical(root_text);
            let target = canonical(joined(root_text, relative));
            resolved(root, relative) == if root.is_prefix_of(target) {
                Ok::<Seq<Seq<char>>, ResolveError>(target)
            } else {
                Err::<Seq<Seq<char>>, ResolveError>(ResolveError::OutsideRoot)
            }
        }),
{
    if !is_absolute(relative) {
        lemma_split_concat(root_text, relative);
        lemma_walk_concat(Seq::empty(), split_segments(root_text), split_segments(relative));
    }
}

/// Traversal: a path that is absolute, or holds a `..` segment, is refused as
/// outside the root, unless its destination lies under the root after all.
pub proof fn lemma_traversal_is_refused(root: Seq<Seq<char>>, relative: Seq<char>)
    requires
        is_absolute(relative) || has_parent_segment(relative),
        !relative.contains('\0'),
        !root.is_prefix_of(destination(root, relative)),
    ensures
        resolved(root, relative) == Err::<Seq<Seq<char>>, ResolveError>(
            ResolveError::OutsideRoot,
        ),
{
}

/// A path that climbs out holds a `..` segment.
pub proof fn lemma_climb_needs_parent_segment(relative: Seq<char>)
    requires
        climbs_out(split_segments(relative)),
    ensures
        has_parent_segment(relative),
{
    first_climb(split_segments(relative));
}

/// The position of the first `..` that has nowhere left to go.
proof fn first_climb(segments: Seq<Seq<char>>) -> (k: int)
    requires
        climbs_out(segments),
    ensures
        0 <= k < segments.len(),
        !climbs_out(segments.take(k)),
        walk(Seq::empty(), segments.take(k)).len() == 0,
        is_parent(segments[k]),
    decreases segments.len(),
{
    let earlier = segments.drop_last();
    if climbs_out(earlier) {
        let k = first_climb(earlier);
        assert(earlier.take(k) == segments.take(k));
        k
    } else {
        segments.len() - 1
    }
}

/// The location does not pass through the root's own directory: either it is
/// too short, or the name at the root's depth is not the root's last name.
spec fn misses_root(root: Seq<Seq<char>>, at: Seq<Seq<char>>) -> bool {
    at.len() < root.len() || at[root.len() - 1] != root.last()
}

/// From a location that misses the root, segments that never spell the
/// root's last name lead to a location that misses it too.
proof fn lemma_walk_misses_root(
    root: Seq<Seq<char>>,
    from: Seq<Seq<char>>,
    segments: Seq<Seq<char>>,
)
    requires
        root.len() > 0,
        misses_root(root, from),
        forall|i: int| 0 <= i < segments.len() ==> #[trigger] segments[i] != root.last(),
    ensures
        misses_root(root, walk(from, segments)),
    decreases segments.len(),
{
    if segments.len() > 0 {
        lemma_walk_misses_root(root, from, segments.drop_last());
    }
}

/// Escape: under a root that is not the top of the filesystem, a path is
/// refused as outside the root when it is absolute, or when one of its `..`
/// segments climbs above the root, unless one of its segments spells the
/// root's own last name (only through that name can it come back in).
pub proof fn lemma_escape_is_refused(root: Seq<Seq<char>>, relative: Seq<char>)
    requires
        root.len() > 0,
        !relative.contains('\0'),
        is_absolute(relative) || climbs_out(split_segments(relative)),
        forall|i: int|
            0 <= i < split_segments(relative).len() ==> #[trigger] split_segments(relative)[i]
                != root.last(),
    ensures
        resolved(root, relative) == Err::<Seq<Seq<char>>, ResolveError>(
            ResolveError::OutsideRoot,
        ),
{
    let segments = split_segments(relative);
    let nothing = Seq::<Seq<char>>::empty();
    if is_absolute(relative) {
        lemma_walk_misses_root(root, nothing, segments);
        let target = walk(nothing, segments);
        if root.is_prefix_of(target) {
            assert(target.subrange(0, root.len() as int)[root.len() - 1] == target[root.len()
                - 1]);
        }
    } else {
        let k = first_climb(segments);
        let before = segments.take(k);
        let upto = segments.take(k + 1);
        let after = segments.skip(k + 1);
        assert(upto + after == segments);
        lemma_walk_concat(root, upto, after);
        assert(upto.drop_last() == before);
        lemma_walk_inside(root, before);
        lemma_walk_misses_root(root, root.drop_last(), after);
        let target = walk(root, segments);
        if root.is_prefix_of(target) {
            assert(target.subrange(0, root.len() as int)[root.len() - 1] == target[root.len()
                - 1]);
        }
    }
}

/// Round trip: a path that is not absolute and never climbs out resolves to
/// the root followed by the path's own names, so that stripping the root from
/// the result gives the path in canonical form.
pub proof fn lemma_round_trip(root: Seq<Seq<char>>, relative: Seq<char>)
    requires
        !relative.contains('\0'),
        !is_absolute(relative),
        !climbs_out(split_segments(relative)),
    ensures
        resolved(root, relative) == Ok::<Seq<Seq<char>>, ResolveError>(root + canonical(relative)),
        (root + canonical(relative)).skip(root.len() as int) == canonical(relative),
        render_relative((root + canonical(relative)).skip(root.len() as int)) == canonical_form(
            relative,
        ),
{
    lemma_walk_inside(root, split_segments(relative));
}

/// No name in a rendered run of names brings in a NUL character, and the run
/// does not start with a separator.
proof fn lemma_render_clean(names: Seq<Seq<char>>)
    requires
        is_canonical(names),
    ensures
        !render_relative(names).contains('\0'),
        !is_absolute(render_relative(names)),
    decreases names.len(),
{
    if names.len() > 1 {
        let earlier = names.drop_last();
        lemma_render_clean(earlier);
        lemma_render_starts_with_name(earlier);
    }
}

/// A rendered run of at least one name is not empty.
proof fn lemma_render_starts_with_name(names: Seq<Seq<char>>)
    requires
        is_canonical(names),
        names.len() >= 1,
    ensures
        render_relative(names).len() > 0,
    decreases names.len(),
{
}

/// The two string forms of a location are mutually derivable: the path from
/// the root to a location under it, rendered and resolved again under the
/// same root, gives the same location.
pub proof fn lemma_strip_then_resolve(root: Seq<Seq<char>>, target: Seq<Seq<char>>)
    requires
        is_canonical(target),
        root.is_prefix_of(target),
    ensures
        resolved(root, render_relative(target.skip(root.len() as int))) == Ok::<
            Seq<Seq<char>>,
            ResolveError,
        >(target),
{
    let below = target.skip(root.len() as int);
    lemma_render_clean(below);
    assert(root + below == target);
    if below.len() == 0 {
        reveal_with_fuel(walk, 2);
    } else {
        lemma_split_render(below);
        lemma_walk_names(root, below);
    }
}

/// The namespaces of two users do not overlap: whatever paths they ask for,
/// the path strings of users with different names differ.
pub proof fn lemma_user_namespaces_disjoint(
    first_user: Seq<char>,
    first_path: Seq<char>,
    second_user: Seq<char>,
    second_path: Seq<char>,
)
    requires
        !first_user.contains('/'),
        !second_user.contains('/'),
        first_user != second_user,
    ensures
        scoped(first_user, first_path) != scoped(second_user, second_path),
{
    let a = scoped(first_user, first_path);
    let b = scoped(second_user, second_path);
    if a == b {
        if first_user.len() < second_user.len() {
            assert(a[first_user.len() as int] == '/');
        } else if second_user.len() < first_user.len() {
            assert(b[second_user.len() as int] == '/');
        } else {
            assert forall|i: int| 0 <= i < first_user.len() implies first_user[i]
                == second_user[i] by {
                assert(a[i] == first_user[i]);
            }
            assert(first_user =~= second_user);
        }
    }
}

/// One canonical form: a separator at the end of a path that is not empty
/// changes nothing in how it resolves.
pub proof fn lemma_trailing_separator_ignored(root: Seq<Seq<char>>, relative: Seq<char>)
    requires
        relative.len() > 0,
    ensures
        resolved(root, relative + seq!['/']) == resolved(root, relative),
{
    let longer = relative + seq!['/'];
    assert(longer.drop_last() == relative);
    assert(longer.contains('\0') == relative.contains('\0'));
    assert(split_segments(longer).drop_last() == split_segments(relative));
}

} // verus!
