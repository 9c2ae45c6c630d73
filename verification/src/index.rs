//! The spatial index of the registry: a fixed-point k-d tree of the `kiddo`
//! crate with three axes, buckets of 32 entries and `u32` items.
//!
//! Verus does not read `kiddo`. What this file says of the tree is taken
//! from its source and believed, not proved.

use vstd::prelude::*;
use fixed::types::extra::U0;
use fixed::FixedI32;
use kiddo::fixed::distance::Manhattan;
use kiddo::fixed::kdtree::KdTree;
use crate::position::axis_gap;

verus! {

/// The number of entries that may share one coordinate on one axis: half a
/// bucket. A full bucket is split at its median; with more equal coordinates
/// than this the split can fail or leave entries where no search finds them.
pub const AXIS_CAPACITY: usize = 16;

/// One result of a search: an item and its distance from the origin of the
/// search.
#[derive(Clone, Copy, Debug, PartialEq, Eq, Structural)]
pub struct Neighbour {
    pub distance: i32,
    pub item: u32,
}

/// `kiddo::fixed::kdtree::KdTree`, opaque.
#[verifier::external_type_specification]
#[verifier::external_body]
#[verifier::reject_recursive_types(A)]
#[verifier::reject_recursive_types(T)]
#[verifier::reject_recursive_types(IDX)]
pub struct ExKdTree<A: Copy + Default, T: Copy + Default, const K: usize, const B: usize, IDX>(
    KdTree<A, T, K, B, IDX>,
);

/// `fixed::FixedI32`, opaque: the coordinate type of the tree.
#[verifier::external_type_specification]
#[verifier::external_body]
#[verifier::reject_recursive_types(Frac)]
pub struct ExFixedI32<Frac>(FixedI32<Frac>);

/// `fixed::types::extra::U0`, opaque: no fractional bits.
#[verifier::external_type_specification]
#[verifier::external_body]
pub struct ExU0(U0);

/// The entries that the tree holds, each as `(x, y, z, item)`.
pub uninterp spec fn index_entries(tree: KdTree<FixedI32<U0>, u32, 3, 32, u32>) -> Set<
    (i32, i32, i32, u32),
>;

/// Whether the tree is in the state that its operations keep and rely on:
/// every entry is stored once, in the bucket where a search for its point
/// arrives.
pub uninterp spec fn index_settled(tree: KdTree<FixedI32<U0>, u32, 3, 32, u32>) -> bool;

/// The coordinate of an entry on axis 0 (x), 1 (y) or 2 (z).
pub open spec fn entry_coordinate(entry: (i32, i32, i32, u32), axis: int) -> int {
    if axis == 0 {
        entry.0 as int
    } else if axis == 1 {
        entry.1 as int
    } else {
        entry.2 as int
    }
}

/// The number of entries whose coordinate on `axis` is `value`.
pub open spec fn axis_load(entries: Set<(i32, i32, i32, u32)>, axis: int, value: int) -> nat {
    entries.filter(|entry: (i32, i32, i32, u32)| entry_coordinate(entry, axis) == value).len()
}

/// Whether no coordinate of the entry is further from the point than an
/// `i32` can say.
pub open spec fn in_sight(x: i32, y: i32, z: i32, entry: (i32, i32, i32, u32)) -> bool {
    &&& axis_gap(x as int, entry.0 as int) <= i32::MAX
    &&& axis_gap(y as int, entry.1 as int) <= i32::MAX
    &&& axis_gap(z as int, entry.2 as int) <= i32::MAX
}

/// The Manhattan distance from the point to the entry, capped at `i32::MAX`.
pub open spec fn entry_reach(x: i32, y: i32, z: i32, entry: (i32, i32, i32, u32)) -> int {
    let sum = axis_gap(x as int, entry.0 as int) + axis_gap(y as int, entry.1 as int)
        + axis_gap(z as int, entry.2 as int);
    if sum <= i32::MAX {
        sum
    } else {
        i32::MAX as int
    }
}

/// Calls `KdTree::new`: a tree without entries.
#[verifier::external_body]
pub(crate) fn index_new() -> (tree: KdTree<FixedI32<U0>, u32, 3, 32, u32>)
    ensures
        index_settled(tree),
        index_entries(tree) == Set::<(i32, i32, i32, u32)>::empty(),
{
    KdTree::new()
}

/// Calls `KdTree::add`, which stores the entry in the bucket where a search
/// for the point arrives and splits that bucket first when it is full.
///
/// The split panics when all 32 entries of the bucket share the coordinate
/// on the split axis, and is sound only while fewer than 17 of them do; the
/// bound on `axis_load` keeps both away. The tree counts its entries in a
/// `u32`.
#[verifier::external_body]
pub(crate) fn index_add(
    tree: &mut KdTree<FixedI32<U0>, u32, 3, 32, u32>,
    x: i32,
    y: i32,
    z: i32,
    item: u32,
)
    requires
        index_settled(*old(tree)),
        index_entries(*old(tree)).finite(),
        index_entries(*old(tree)).len() < u32::MAX,
        !index_entries(*old(tree)).contains((x, y, z, item)),
        forall|axis: int, value: int|
            0 <= axis < 3 ==> #[trigger] axis_load(index_entries(*old(tree)), axis, value)
                <= AXIS_CAPACITY,
    ensures
        index_settled(*final(tree)),
        index_entries(*final(tree)) == index_entries(*old(tree)).insert((x, y, z, item)),
{
    tree.add(&[FixedI32::from(x), FixedI32::from(y), FixedI32::from(z)], item);
}

/// Calls `KdTree::remove`, which searches the bucket where the point belongs
/// and takes out every entry there that equals the given one.
#[verifier::external_body]
pub(crate) fn index_remove(
    tree: &mut KdTree<FixedI32<U0>, u32, 3, 32, u32>,
    x: i32,
    y: i32,
    z: i32,
    item: u32,
)
    requires
        index_settled(*old(tree)),
    ensures
        index_settled(*final(tree)),
        index_entries(*final(tree)) == index_entries(*old(tree)).remove((x, y, z, item)),
{
    tree.remove(&[FixedI32::from(x), FixedI32::from(y), FixedI32::from(z)], item);
}

/// Calls `KdTree::within` with the Manhattan metric: every entry whose
/// distance from the point is at most `radius`, nearest first. Entries at
/// one distance come in no stated order.
///
/// The metric takes the difference of two coordinates in an `i32` and
/// panics where it does not fit, so every entry must be `in_sight`. The sum
/// of the three differences saturates.
#[verifier::external_body]
pub(crate) fn index_within(
    tree: &KdTree<FixedI32<U0>, u32, 3, 32, u32>,
    x: i32,
    y: i32,
    z: i32,
    radius: i32,
) -> (found: Vec<Neighbour>)
    requires
        index_settled(*tree),
        forall|entry: (i32, i32, i32, u32)| #[trigger]
            index_entries(*tree).contains(entry) ==> in_sight(x, y, z, entry),
    ensures
        forall|i: int, j: int|
            0 <= i <= j < found@.len() ==> (#[trigger] found@[i]).distance <= (
            #[trigger] found@[j]).distance,
        forall|i: int|
            0 <= i < found@.len() ==> exists|entry: (i32, i32, i32, u32)|
                {
                    &&& #[trigger] index_entries(*tree).contains(entry)
                    &&& entry.3 == (#[trigger] found@[i]).item
                    &&& entry_reach(x, y, z, entry) == found@[i].distance
                    &&& found@[i].distance <= radius
                },
        forall|entry: (i32, i32, i32, u32)|
            #[trigger] index_entries(*tree).contains(entry) && entry_reach(x, y, z, entry)
                <= radius ==> exists|i: int|
                0 <= i < found@.len() && #[trigger] found@[i] == (Neighbour {
                    distance: entry_reach(x, y, z, entry) as i32,
                    item: entry.3,
                }),
{
    let origin = [FixedI32::from(x), FixedI32::from(y), FixedI32::from(z)];
    let hits = tree.within::<Manhattan>(&origin, FixedI32::from(radius));
    hits.into_iter().map(|hit| Neighbour { distance: i32::from(hit.distance), item: hit.item }).collect()
}

} // verus!
