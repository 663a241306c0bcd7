//! What holds of the order in which snapshots are listed.

use vstd::prelude::*;
use crate::error::ResolveError;
use crate::file::{precedes, snapshot, NASFileView, Probe};
use crate::path_laws::lemma_strip_then_resolve;
use crate::path_model::{canonical, is_canonical, lemma_canonical_render, resolved};
use crate::text::{lemma_rank_mirror, lemma_rank_same, lemma_rank_transitive, lex_rank, Rank};

verus! {

/// Two snapshots that the listing order does not tell apart: both are
/// directories or neither is, and their names are equal.
pub open spec fn same_place(a: NASFileView, b: NASFileView) -> bool {
    a.category.is_directory() == b.category.is_directory() && a.name == b.name
}

/// A listing in order: no snapshot stands before one that comes earlier.
pub open spec fn is_listing(entries: Seq<NASFileView>) -> bool {
    forall|i: int, j: int| 0 <= i < j < entries.len() ==> !precedes(entries[j], entries[i])
}

/// No snapshot stands before itself.
pub proof fn lemma_order_irreflexive(a: NASFileView)
    ensures
        !precedes(a, a),
{
    lemma_rank_same(a.name, a.name);
}

/// Of two snapshots at most one stands before the other.
pub proof fn lemma_order_asymmetric(a: NASFileView, b: NASFileView)
    requires
        precedes(a, b),
    ensures
        !precedes(b, a),
{
    lemma_rank_mirror(a.name, b.name);
    lemma_rank_mirror(b.name, a.name);
}

/// Standing before is transitive.
pub proof fn lemma_order_transitive(a: NASFileView, b: NASFileView, c: NASFileView)
    requires
        precedes(a, b),
        precedes(b, c),
    ensures
        precedes(a, c),
{
    if a.category.is_directory() == b.category.is_directory() && b.category.is_directory()
        == c.category.is_directory() {
        lemma_rank_transitive(a.name, b.name, c.name);
    }
}

/// The order is total: of two snapshots one stands before the other, unless
/// they agree in being a directory and in their name, and then neither does.
pub proof fn lemma_order_total(a: NASFileView, b: NASFileView)
    ensures
        precedes(a, b) || precedes(b, a) || same_place(a, b),
        same_place(a, b) ==> !precedes(a, b) && !precedes(b, a),
{
    lemma_rank_same(a.name, b.name);
    lemma_rank_same(b.name, a.name);
    lemma_rank_mirror(a.name, b.name);
    lemma_rank_mirror(b.name, a.name);
}

/// A directory stands before every snapshot that is none, whatever the
/// names.
pub proof fn lemma_directory_first(a: NASFileView, b: NASFileView)
    requires
        a.category.is_directory(),
        !b.category.is_directory(),
    ensures
        precedes(a, b),
        !precedes(b, a),
{
}

/// In a listing in order every directory comes before every snapshot that is
/// none.
pub proof fn lemma_listing_directories_first(entries: Seq<NASFileView>, i: int, j: int)
    requires
        is_listing(entries),
        0 <= i < entries.len(),
        0 <= j < entries.len(),
        entries[i].category.is_directory(),
        !entries[j].category.is_directory(),
    ensures
        i < j,
{
    if j < i {
        assert(!precedes(entries[i], entries[j]));
    }
}

/// In a listing in order, names within the directories, and within the rest,
/// never go down.
pub proof fn lemma_listing_names_ascend(entries: Seq<NASFileView>, i: int, j: int)
    requires
        is_listing(entries),
        0 <= i < j < entries.len(),
        entries[i].category.is_directory() == entries[j].category.is_directory(),
    ensures
        lex_rank(entries[i].name, entries[j].name) != Rank::After,
{
    assert(!precedes(entries[j], entries[i]));
    lemma_rank_mirror(entries[j].name, entries[i].name);
}

/// The two path strings of a snapshot are mutually derivable: the relative
/// one resolves under the root to the location that the absolute one spells.
pub proof fn lemma_snapshot_paths_agree(
    root: Seq<Seq<char>>,
    location: Seq<Seq<char>>,
    probe: Probe,
)
    requires
        is_canonical(location),
        root.is_prefix_of(location),
        snapshot(location, root.len(), probe) is Ok,
    ensures
        ({
            let entry = snapshot(location, root.len(), probe)->Ok_0;
            &&& canonical(entry.absolute_path) == location
            &&& resolved(root, entry.relative_path) == Ok::<Seq<Seq<char>>, ResolveError>(location)
        }),
{
    lemma_canonical_render(location);
    lemma_strip_then_resolve(root, location);
}

} // verus!
