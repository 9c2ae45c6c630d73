//! The crop registry: the crops that are known, under stable identifiers,
//! with a spatial index over their positions and a running count of the
//! ripe ones.

use vstd::prelude::*;
use vstd::set_lib::lemma_int_range;
use vstd::set_lib::lemma_len_subset;
use vstd::set_lib::lemma_map_size;
use vstd::set_lib::lemma_map_size_bound;
use vstd::set_lib::set_int_range;
use std::collections::HashMap;
use fixed::types::extra::U0;
use fixed::FixedI32;
use kiddo::fixed::kdtree::KdTree;
use crate::block::BlockState;
use crate::block::BlockUpdate;
use crate::crop::Crop;
use crate::crop::CropSpecies;
use crate::harvest::HarvestRegistry;
use crate::index::axis_load;
use crate::index::entry_coordinate;
use crate::index::entry_reach;
use crate::index::in_sight;
use crate::index::index_add;
use crate::index::index_entries;
use crate::index::index_new;
use crate::index::index_remove;
use crate::index::index_settled;
use crate::index::index_within;
use crate::index::Neighbour;
use crate::index::AXIS_CAPACITY;
use crate::ledger::lemma_ready_bound;
use crate::ledger::lemma_ready_insert;
use crate::ledger::lemma_ready_remove;
use crate::ledger::lemma_removed_consistent;
use crate::ledger::lemma_updated_consistent;
use crate::ledger::Ledger;
use crate::ledger::UpdateOutcome;
use crate::position::by_cell;
use crate::position::lemma_by_cell_follows_keys;
use crate::position::lemma_key_injective;
use crate::position::BlockPos;
use crate::tally::AxisTally;

verus! {

broadcast use vstd::std_specs::hash::group_hash_axioms;

/// How long the harvest loop rests while nothing is ripe, in milliseconds.
pub const IDLE_MILLIS: u64 = 1000;

/// The crops that are tracked.
///
/// Every crop has its place in the search: an entry in the spatial index,
/// or, where the index cannot take it, its identifier in a list that the
/// search walks as well. The index takes cells that are `in_range`, and at
/// most `AXIS_CAPACITY` entries that share one coordinate.
pub struct CropRegistry {
    crops: HashMap<u32, Crop>,
    identifiers: HashMap<u128, u32>,
    positions: KdTree<FixedI32<U0>, u32, 3, 32, u32>,
    unindexed: Vec<u32>,
    plane_x: AxisTally,
    plane_y: AxisTally,
    plane_z: AxisTally,
    next_identifier: u32,
    harvest_size: usize,
}

/// The entry under which the index holds a crop.
pub open spec fn entry_of(crop: Crop) -> (i32, i32, i32, u32) {
    (crop.pos.x, crop.pos.y, crop.pos.z, crop.identifier)
}

/// Every crop of the table has its place in the search, in the index or in
/// the list and never in both, and neither holds anything else.
pub open spec fn searched(
    entries: Set<(i32, i32, i32, u32)>,
    listed: Seq<u32>,
    crops: Map<u32, Crop>,
) -> bool {
    &&& forall|entry: (i32, i32, i32, u32)| #[trigger]
        entries.contains(entry) ==> {
            &&& crops.contains_key(entry.3)
            &&& entry_of(crops[entry.3]) == entry
            &&& !listed.contains(entry.3)
        }
    &&& forall|k: int| 0 <= k < listed.len() ==> crops.contains_key(#[trigger] listed[k])
    &&& listed.no_duplicates()
    &&& forall|id: u32| #[trigger]
        crops.contains_key(id) ==> entries.contains(entry_of(crops[id])) || listed.contains(id)
}

/// One more entry adds one to the load of each of its planes.
proof fn lemma_load_insert(
    entries: Set<(i32, i32, i32, u32)>,
    entry: (i32, i32, i32, u32),
    axis: int,
    value: int,
)
    requires
        entries.finite(),
        !entries.contains(entry),
    ensures
        axis_load(entries.insert(entry), axis, value) == axis_load(entries, axis, value) + (
        if entry_coordinate(entry, axis) == value {
            1int
        } else {
            0int
        }),
{
    let on_plane = |e: (i32, i32, i32, u32)| entry_coordinate(e, axis) == value;
    entries.lemma_len_filter(on_plane);
    if entry_coordinate(entry, axis) == value {
        assert(entries.insert(entry).filter(on_plane) =~= entries.filter(on_plane).insert(entry));
    } else {
        assert(entries.insert(entry).filter(on_plane) =~= entries.filter(on_plane));
    }
}

/// One entry less takes one from the load of each of its planes.
proof fn lemma_load_remove(
    entries: Set<(i32, i32, i32, u32)>,
    entry: (i32, i32, i32, u32),
    axis: int,
    value: int,
)
    requires
        entries.finite(),
        entries.contains(entry),
    ensures
        axis_load(entries.remove(entry), axis, value) == axis_load(entries, axis, value) - (
        if entry_coordinate(entry, axis) == value {
            1int
        } else {
            0int
        }),
{
    let on_plane = |e: (i32, i32, i32, u32)| entry_coordinate(e, axis) == value;
    entries.lemma_len_filter(on_plane);
    if entry_coordinate(entry, axis) == value {
        assert(entries.remove(entry).filter(on_plane) =~= entries.filter(on_plane).remove(entry));
    } else {
        assert(entries.remove(entry).filter(on_plane) =~= entries.filter(on_plane));
    }
}

/// An index whose entries are entries of crops of the table has no more
/// entries than the table has crops.
proof fn lemma_entries_bound(entries: Set<(i32, i32, i32, u32)>, crops: Map<u32, Crop>)
    requires
        entries.finite(),
        crops.dom().finite(),
        forall|entry: (i32, i32, i32, u32)| #[trigger]
            entries.contains(entry) ==> crops.contains_key(entry.3) && entry_of(crops[entry.3])
                == entry,
    ensures
        entries.len() <= crops.dom().len(),
{
    let item = |entry: (i32, i32, i32, u32)| entry.3;
    let items = entries.map(item);
    assert forall|a: (i32, i32, i32, u32), b: (i32, i32, i32, u32)|
        entries.contains(a) && entries.contains(b) && #[trigger] item(a) == #[trigger] item(
            b,
        ) implies a == b by {
        assert(entry_of(crops[a.3]) == a && entry_of(crops[b.3]) == b);
    }
    lemma_map_size(entries, items, item);
    assert forall|id: u32| items.contains(id) implies crops.dom().contains(id) by {
        let entry = choose|entry: (i32, i32, i32, u32)| entries.contains(entry) && id == item(entry);
        assert(crops.contains_key(entry.3));
    }
    lemma_len_subset(items, crops.dom());
}

/// A table whose identifiers all lie below `bound` has at most `bound`
/// crops.
proof fn lemma_ids_below(crops: Map<u32, Crop>, bound: u32)
    requires
        crops.dom().finite(),
        forall|id: u32| #[trigger] crops.contains_key(id) ==> id < bound,
    ensures
        crops.dom().len() <= bound,
{
    let below = Set::new(|id: u32| id < bound);
    let numbers = set_int_range(0, bound as int);
    let narrow = |n: int| n as u32;
    lemma_int_range(0, bound as int);
    assert forall|id: u32| numbers.map(narrow).contains(id) == below.contains(id) by {
        if below.contains(id) {
            assert(numbers.contains(id as int) && id == narrow(id as int));
        }
    }
    assert(numbers.map(narrow) =~= below);
    lemma_map_size_bound(numbers, below, narrow);
    lemma_len_subset(crops.dom(), below);
}

/// A list without duplicates that loses the identifier in one slot holds
/// what it held before but for that identifier, and still no duplicates.
proof fn lemma_slot_removed(listed: Seq<u32>, slot: int)
    requires
        listed.no_duplicates(),
        0 <= slot < listed.len(),
    ensures
        listed.remove(slot).no_duplicates(),
        forall|id: u32|
            #[trigger] listed.remove(slot).contains(id) <==> listed.contains(id) && id
                != listed[slot],
        forall|k: int|
            0 <= k < listed.remove(slot).len() ==> listed.contains(
                #[trigger] listed.remove(slot)[k],
            ),
{
    let rest = listed.remove(slot);
    listed.remove_ensures(slot);
    assert forall|k: int| 0 <= k < rest.len() implies listed.contains(#[trigger] rest[k])
        && rest[k] != listed[slot] by {
        if k < slot {
            assert(rest[k] == listed[k]);
        } else {
            assert(rest[k] == listed[k + 1]);
        }
    }
    assert forall|id: u32| listed.contains(id) && id != listed[slot] implies rest.contains(id) by {
        let k = choose|k: int| 0 <= k < listed.len() && listed[k] == id;
        if k < slot {
            assert(rest[k] == id);
        } else {
            assert(rest[k - 1] == id);
        }
    }
    assert forall|i: int, j: int| 0 <= i < rest.len() && 0 <= j < rest.len() && i != j implies rest[i]
        != rest[j] by {
        let a = if i < slot { i } else { i + 1 };
        let b = if j < slot { j } else { j + 1 };
        assert(rest[i] == listed[a] && rest[j] == listed[b]);
    }
}

/// The place of `id` in the list, if it has one.
fn slot_of(listed: &Vec<u32>, id: u32) -> (r: Option<usize>)
    ensures
        match r {
            Some(slot) => slot < listed@.len() && listed@[slot as int] == id,
            None => !listed@.contains(id),
        },
{
    let mut k: usize = 0;
    while k < listed.len()
        invariant
            0 <= k <= listed@.len(),
            forall|j: int| 0 <= j < k ==> listed@[j] != id,
        decreases listed@.len() - k,
    {
        if listed[k] == id {
            return Some(k);
        }
        k += 1;
    }
    None
}

impl View for CropRegistry {
    type V = Ledger;

    /// What the registry knows.
    closed spec fn view(&self) -> Ledger {
        Ledger {
            crops: self.crops@,
            identifiers: by_cell(self.identifiers@),
            next_identifier: self.next_identifier,
        }
    }
}

impl CropRegistry {
    /// The running count of ripe crops.
    pub closed spec fn counter(&self) -> nat {
        self.harvest_size as nat
    }

    /// The entries of the spatial index, each as `(x, y, z, identifier)`.
    pub closed spec fn indexed(&self) -> Set<(i32, i32, i32, u32)> {
        index_entries(self.positions)
    }

    /// The identifiers of the crops that the search finds in its list.
    pub closed spec fn listed(&self) -> Seq<u32> {
        self.unindexed@
    }

    spec fn plane(&self, axis: int) -> AxisTally {
        if axis == 0 {
            self.plane_x
        } else if axis == 1 {
            self.plane_y
        } else {
            self.plane_z
        }
    }

    /// The registry is whole: its ledger is consistent, every crop of the
    /// table has its place in the search, and the running counts are those
    /// that a scan gives.
    pub closed spec fn wf(&self) -> bool {
        &&& self@.consistent()
        &&& forall|key: u128| #[trigger]
            self.identifiers@.contains_key(key) ==> {
                &&& self.crops@.contains_key(self.identifiers@[key])
                &&& self.crops@[self.identifiers@[key]].pos.spec_key() == key
            }
        &&& index_settled(self.positions)
        &&& index_entries(self.positions).finite()
        &&& searched(index_entries(self.positions), self.unindexed@, self.crops@)
        &&& forall|entry: (i32, i32, i32, u32)| #[trigger]
            index_entries(self.positions).contains(entry) ==> self.crops@[entry.3].pos.in_range()
        &&& self.harvest_size == self@.ready_count()
        &&& self.planes_counted()
    }

    /// Each tally holds, for each coordinate, the number of entries of the
    /// index that have it, and none is over the capacity.
    spec fn planes_counted(&self) -> bool {
        forall|axis: int, value: i32|
            0 <= axis < 3 ==> {
                &&& #[trigger] self.plane(axis).count(value) == axis_load(
                    index_entries(self.positions),
                    axis,
                    value as int,
                )
                &&& self.plane(axis).count(value) <= AXIS_CAPACITY
            }
    }

    /// The tallies stay right while neither they nor the entries of the
    /// index change.
    proof fn lemma_planes_kept(&self, before: CropRegistry)
        requires
            before.planes_counted(),
            self.plane_x == before.plane_x,
            self.plane_y == before.plane_y,
            self.plane_z == before.plane_z,
            index_entries(self.positions) == index_entries(before.positions),
        ensures
            self.planes_counted(),
    {
        assert forall|axis: int, value: i32| 0 <= axis < 3 implies {
            &&& #[trigger] self.plane(axis).count(value) == axis_load(
                index_entries(self.positions),
                axis,
                value as int,
            )
            &&& self.plane(axis).count(value) <= AXIS_CAPACITY
        } by {
            assert(before.plane(axis).count(value) <= AXIS_CAPACITY);
        }
    }

    /// The index can take one more entry: no plane is over its capacity and
    /// the entries are no more than the crops.
    proof fn lemma_planes_fit(&self)
        requires
            self.wf(),
        ensures
            index_entries(self.positions).len() <= self.crops@.dom().len(),
            forall|axis: int, value: int|
                0 <= axis < 3 ==> #[trigger] axis_load(index_entries(self.positions), axis, value)
                    <= AXIS_CAPACITY,
    {
        let entries = index_entries(self.positions);
        lemma_entries_bound(entries, self.crops@);
        assert forall|axis: int, value: int| 0 <= axis < 3 implies #[trigger] axis_load(
            entries,
            axis,
            value,
        ) <= AXIS_CAPACITY by {
            if i32::MIN <= value <= i32::MAX {
                assert(self.plane(axis).count(value as i32) <= AXIS_CAPACITY);
            } else {
                assert(entries.filter(
                    |e: (i32, i32, i32, u32)| entry_coordinate(e, axis) == value,
                ) =~= Set::<(i32, i32, i32, u32)>::empty());
            }
        }
    }

    /// A registry without crops.
    pub fn new() -> (r: CropRegistry)
        ensures
            r.wf(),
            r@.crops == Map::<u32, Crop>::empty(),
            r@.identifiers == Map::<BlockPos, u32>::empty(),
            r@.next_identifier == 0,
            r@.ready_count() == 0,
    {
        let r = CropRegistry {
            crops: HashMap::new(),
            identifiers: HashMap::new(),
            positions: index_new(),
            unindexed: Vec::new(),
            plane_x: AxisTally::new(),
            plane_y: AxisTally::new(),
            plane_z: AxisTally::new(),
            next_identifier: 0,
            harvest_size: 0,
        };
        proof {
            assert(r@.identifiers =~= Map::<BlockPos, u32>::empty());
            assert(r@.crops.dom() =~= Set::<u32>::empty());
            lemma_ready_bound(r@.crops);
            assert forall|axis: int, value: int|
                #[trigger] axis_load(index_entries(r.positions), axis, value) == 0 by {
                assert(index_entries(r.positions).filter(
                    |e: (i32, i32, i32, u32)| entry_coordinate(e, axis) == value,
                ) =~= Set::<(i32, i32, i32, u32)>::empty());
            }
        }
        r
    }

    /// Whether an identifier is left for a crop at a new position.
    pub fn identifiers_left(&self) -> (r: bool)
        ensures
            r == (self@.next_identifier < u32::MAX),
    {
        self.next_identifier < u32::MAX
    }

    /// Gives the crop `id`, which is new to the table, its place in the
    /// search: an entry in the index where the index can take it, else a
    /// place in the list.
    fn place(&mut self, pos: BlockPos, id: u32)
        requires
            old(self).wf(),
            !old(self).crops@.contains_key(id),
            old(self).crops@.dom().len() < u32::MAX,
        ensures
            final(self).crops == old(self).crops,
            final(self).identifiers == old(self).identifiers,
            final(self).next_identifier == old(self).next_identifier,
            final(self).harvest_size == old(self).harvest_size,
            index_settled(final(self).positions),
            index_entries(final(self).positions).finite(),
            final(self).placed(*old(self), pos, id),
            final(self).planes_counted(),
    {
        proof {
            self.lemma_planes_fit();
            assert(self.plane(0).count(pos.x) <= AXIS_CAPACITY);
            assert(self.plane(1).count(pos.y) <= AXIS_CAPACITY);
            assert(self.plane(2).count(pos.z) <= AXIS_CAPACITY);
        }
        if pos.in_range() && self.plane_x.get(pos.x) < AXIS_CAPACITY && self.plane_y.get(pos.y)
            < AXIS_CAPACITY && self.plane_z.get(pos.z) < AXIS_CAPACITY {
            index_add(&mut self.positions, pos.x, pos.y, pos.z, id);
            self.plane_x.increment(pos.x);
            self.plane_y.increment(pos.y);
            self.plane_z.increment(pos.z);
            proof {
                let entry = (pos.x, pos.y, pos.z, id);
                assert forall|axis: int, value: i32| 0 <= axis < 3 implies {
                    &&& #[trigger] self.plane(axis).count(value) == axis_load(
                        index_entries(self.positions),
                        axis,
                        value as int,
                    )
                    &&& self.plane(axis).count(value) <= AXIS_CAPACITY
                } by {
                    lemma_load_insert(
                        index_entries(old(self).positions),
                        entry,
                        axis,
                        value as int,
                    );
                    assert(old(self).plane(axis).count(value) == axis_load(
                        index_entries(old(self).positions),
                        axis,
                        value as int,
                    ));
                }
            }
        } else {
            self.unindexed.push(id);
            proof {
                self.lemma_planes_kept(*old(self));
            }
        }
    }

    /// What `place` did: the crop stands in the index, if the index could
    /// take it, or else at the end of the list.
    spec fn placed(&self, before: CropRegistry, pos: BlockPos, id: u32) -> bool {
        ||| {
            &&& pos.in_range()
            &&& index_entries(self.positions) == index_entries(before.positions).insert(
                (pos.x, pos.y, pos.z, id),
            )
            &&& self.unindexed@ == before.unindexed@
        }
        ||| {
            &&& index_entries(self.positions) == index_entries(before.positions)
            &&& self.unindexed@ == before.unindexed@.push(id)
        }
    }

    /// Takes the crop `id`, that the table has just lost, out of the
    /// search.
    fn displace(&mut self, pos: BlockPos, id: u32)
        requires
            index_settled(old(self).positions),
            index_entries(old(self).positions).finite(),
            old(self).unindexed@.no_duplicates(),
            old(self).unindexed@.contains(id) != index_entries(old(self).positions).contains(
                (pos.x, pos.y, pos.z, id),
            ),
            old(self).planes_counted(),
        ensures
            final(self).crops == old(self).crops,
            final(self).identifiers == old(self).identifiers,
            final(self).next_identifier == old(self).next_identifier,
            final(self).harvest_size == old(self).harvest_size,
            index_settled(final(self).positions),
            index_entries(final(self).positions).finite(),
            index_entries(final(self).positions) == index_entries(old(self).positions).remove(
                (pos.x, pos.y, pos.z, id),
            ),
            final(self).unindexed@.no_duplicates(),
            forall|other: u32|
                #[trigger] final(self).unindexed@.contains(other) <==> old(
                    self,
                ).unindexed@.contains(other) && other != id,
            forall|k: int|
                0 <= k < final(self).unindexed@.len() ==> old(self).unindexed@.contains(
                    #[trigger] final(self).unindexed@[k],
                ),
            final(self).planes_counted(),
    {
        match slot_of(&self.unindexed, id) {
            Some(slot) => {
                proof {
                    lemma_slot_removed(self.unindexed@, slot as int);
                    assert(index_entries(self.positions).remove((pos.x, pos.y, pos.z, id))
                        =~= index_entries(self.positions));
                }
                self.unindexed.remove(slot);
                proof {
                    self.lemma_planes_kept(*old(self));
                }
            },
            None => {
                proof {
                    lemma_load_remove(index_entries(self.positions), (pos.x, pos.y, pos.z, id), 0, pos.x as int);
                    lemma_load_remove(index_entries(self.positions), (pos.x, pos.y, pos.z, id), 1, pos.y as int);
                    lemma_load_remove(index_entries(self.positions), (pos.x, pos.y, pos.z, id), 2, pos.z as int);
                    assert(self.plane(0).count(pos.x) > 0);
                    assert(self.plane(1).count(pos.y) > 0);
                    assert(self.plane(2).count(pos.z) > 0);
                }
                index_remove(&mut self.positions, pos.x, pos.y, pos.z, id);
                self.plane_x.decrement(pos.x);
                self.plane_y.decrement(pos.y);
                self.plane_z.decrement(pos.z);
                proof {
                    assert forall|axis: int, value: i32| 0 <= axis < 3 implies {
                        &&& #[trigger] self.plane(axis).count(value) == axis_load(
                            index_entries(self.positions),
                            axis,
                            value as int,
                        )
                        &&& self.plane(axis).count(value) <= AXIS_CAPACITY
                    } by {
                        lemma_load_remove(
                            index_entries(old(self).positions),
                            (pos.x, pos.y, pos.z, id),
                            axis,
                            value as int,
                        );
                        assert(old(self).plane(axis).count(value) == axis_load(
                            index_entries(old(self).positions),
                            axis,
                            value as int,
                        ));
                    }
                }
            },
        }
    }

    /// Files `crop` under the identifier of its position: the one that the
    /// position has, or a new one. A crop at a new position gets its place
    /// in the search. The identifier that `crop` arrives with is not read.
    pub fn handle_crop_update(&mut self, crop: Crop)
        requires
            old(self).wf(),
            old(self)@.identifiers.contains_key(crop.pos) || old(self)@.next_identifier < u32::MAX,
        ensures
            final(self).wf(),
            final(self)@ == old(self)@.updated(crop),
    {
        let mut crop = crop;
        let key = crop.pos.key();
        proof {
            lemma_updated_consistent(self@, crop);
            lemma_by_cell_follows_keys(self.identifiers@, crop.pos, self@.name_for(crop.pos));
            lemma_ids_below(self.crops@, self.next_identifier);
        }
        let known = match self.identifiers.get(&key) {
            Some(id) => Some(*id),
            None => None,
        };
        match known {
            Some(id) => {
                crop.identifier = id;
                let was_ready = match self.crops.get(&id) {
                    Some(old_crop) => old_crop.harvest_position.is_some(),
                    None => false,
                };
                proof {
                    lemma_ready_remove(self.crops@, id);
                    lemma_ready_bound(self.crops@.remove(id));
                    lemma_key_injective(self.crops@[id].pos, crop.pos);
                }
                if !was_ready && crop.harvest_position.is_some() {
                    self.harvest_size += 1;
                } else if was_ready && crop.harvest_position.is_none() {
                    self.harvest_size -= 1;
                }
                self.crops.insert(id, crop);
                proof {
                    assert(self@.identifiers =~= old(self)@.updated(crop).identifiers);
                    assert(searched(index_entries(self.positions), self.unindexed@, self.crops@));
                    self.lemma_planes_kept(*old(self));
                }
            },
            None => {
                let id = self.next_identifier;
                crop.identifier = id;
                proof {
                    lemma_ready_bound(self.crops@);
                }
                self.place(crop.pos, id);
                let ghost placed = *self;
                self.identifiers.insert(key, id);
                self.next_identifier = id + 1;
                if crop.harvest_position.is_some() {
                    self.harvest_size += 1;
                }
                self.crops.insert(id, crop);
                proof {
                    self.lemma_planes_kept(placed);
                    let entries = index_entries(self.positions);
                    let listed = self.unindexed@;
                    assert forall|k: int| 0 <= k < listed.len() implies self.crops@.contains_key(
                        #[trigger] listed[k],
                    ) by {
                        if k < old(self).unindexed@.len() {
                            assert(listed[k] == old(self).unindexed@[k]);
                        }
                    }
                    assert forall|i: int, j: int|
                        0 <= i < listed.len() && 0 <= j < listed.len() && i != j implies listed[i]
                        != listed[j] by {
                        if i < old(self).unindexed@.len() {
                            assert(listed[i] == old(self).unindexed@[i]);
                        }
                        if j < old(self).unindexed@.len() {
                            assert(listed[j] == old(self).unindexed@[j]);
                        }
                    }
                    assert forall|other: u32| #[trigger]
                        self.crops@.contains_key(other) implies entries.contains(
                        entry_of(self.crops@[other]),
                    ) || listed.contains(other) by {
                        if other == id {
                            if listed != old(self).unindexed@ {
                                assert(listed[listed.len() - 1] == id);
                            }
                        } else {
                            assert(old(self).crops@.contains_key(other));
                            if old(self).unindexed@.contains(other) {
                                let k = choose|k: int|
                                    0 <= k < old(self).unindexed@.len() && old(self).unindexed@[k]
                                        == other;
                                assert(listed[k] == other);
                            }
                        }
                    }
                    assert forall|entry: (i32, i32, i32, u32)| #[trigger]
                        entries.contains(entry) implies {
                        &&& self.crops@.contains_key(entry.3)
                        &&& entry_of(self.crops@[entry.3]) == entry
                        &&& !listed.contains(entry.3)
                        &&& self.crops@[entry.3].pos.in_range()
                    } by {
                        if index_entries(old(self).positions).contains(entry) {
                            assert(old(self).crops@.contains_key(entry.3));
                            if listed.contains(entry.3) {
                                let k = choose|k: int|
                                    0 <= k < listed.len() && listed[k] == entry.3;
                                if k < old(self).unindexed@.len() {
                                    assert(old(self).unindexed@[k] == entry.3);
                                }
                            }
                        } else {
                            if listed.contains(entry.3) {
                                let k = choose|k: int|
                                    0 <= k < listed.len() && listed[k] == entry.3;
                                assert(old(self).unindexed@[k] == id);
                            }
                        }
                    }
                }
            },
        }
    }

    /// Takes note that the block at `position` is gone. A crop tracked there
    /// is forgotten, with its identifier and its place in the search. Else,
    /// sugar cane tracked in the cell below has lost its top: it stays
    /// tracked and is no longer ripe. Else nothing changes.
    pub fn handle_block_removal(&mut self, position: BlockPos)
        requires
            old(self).wf(),
        ensures
            final(self).wf(),
            final(self)@ == old(self)@.removed(position),
    {
        proof {
            lemma_removed_consistent(self@, position);
            lemma_by_cell_follows_keys(self.identifiers@, position, 0u32);
        }
        let key = position.key();
        let known = match self.identifiers.get(&key) {
            Some(id) => Some(*id),
            None => None,
        };
        if let Some(id) = known {
            if let Some(old_crop) = self.crops.remove(&id) {
                proof {
                    lemma_key_injective(old_crop.pos, position);
                    lemma_ready_remove(old(self).crops@, id);
                }
                self.identifiers.remove(&key);
                proof {
                    self.lemma_planes_kept(*old(self));
                }
                self.displace(position, id);
                let ghost displaced = *self;
                if old_crop.harvest_position.is_some() {
                    self.harvest_size -= 1;
                }
                proof {
                    self.lemma_planes_kept(displaced);
                    let listed = self.unindexed@;
                    assert forall|k: int| 0 <= k < listed.len() implies self.crops@.contains_key(
                        #[trigger] listed[k],
                    ) by {
                        assert(old(self).unindexed@.contains(listed[k]));
                        assert(listed.contains(listed[k]));
                        let j = choose|j: int|
                            0 <= j < old(self).unindexed@.len() && old(self).unindexed@[j]
                                == listed[k];
                        assert(old(self).crops@.contains_key(old(self).unindexed@[j]));
                    }
                    assert forall|other: u32| #[trigger]
                        self.crops@.contains_key(other) implies index_entries(
                        self.positions,
                    ).contains(entry_of(self.crops@[other])) || listed.contains(other) by {
                        assert(old(self).crops@.contains_key(other));
                    }
                }
                return ;
            }
        }
        if position.y == i32::MIN {
            return ;
        }
        let below_one = position.down(1);
        let below_key = below_one.key();
        let base = match self.identifiers.get(&below_key) {
            Some(id) => Some(*id),
            None => None,
        };
        if let Some(id) = base {
            let found = match self.crops.get(&id) {
                Some(crop) => Some(*crop),
                None => None,
            };
            if let Some(crop) = found {
                if matches!(crop.species, CropSpecies::SugarCane) {
                    proof {
                        lemma_key_injective(crop.pos, below_one);
                        lemma_ready_insert(
                            self.crops@,
                            id,
                            Crop { harvest_position: None, ..crop },
                        );
                    }
                    if crop.harvest_position.is_some() {
                        self.harvest_size -= 1;
                    }
                    self.crops.insert(id, Crop { harvest_position: None, ..crop });
                    proof {
                        assert(searched(
                            index_entries(self.positions),
                            self.unindexed@,
                            self.crops@,
                        ));
                        self.lemma_planes_kept(*old(self));
                    }
                }
            }
        }
    }

    /// Whether the crop `id` has its entry in the index.
    spec fn in_index(&self, id: u32) -> bool {
        self.crops@.contains_key(id) && index_entries(self.positions).contains(
            entry_of(self.crops@[id]),
        )
    }

    /// The nearest candidate among the crops of the index.
    fn nearest_indexed(&self, position: BlockPos, radius: i32, excludes: &HarvestRegistry) -> (r:
        Option<Neighbour>)
        requires
            self.wf(),
            position.in_range(),
        ensures
            match r {
                Some(hit) => {
                    &&& self@.candidate(hit.item, position, radius as int, excludes@)
                    &&& hit.distance == position.reach(self@.crops[hit.item].pos)
                    &&& forall|other: u32|
                        #[trigger] self@.candidate(other, position, radius as int, excludes@)
                            && self.in_index(other) ==> hit.distance <= position.reach(
                            self@.crops[other].pos,
                        )
                },
                None => forall|id: u32|
                    #[trigger] self@.candidate(id, position, radius as int, excludes@)
                        ==> !self.in_index(id),
            },
    {
        proof {
            assert forall|entry: (i32, i32, i32, u32)| #[trigger]
                index_entries(self.positions).contains(entry) implies in_sight(
                position.x,
                position.y,
                position.z,
                entry,
            ) by {
                assert(self.crops@[entry.3].pos.in_range());
            }
        }
        let found = index_within(&self.positions, position.x, position.y, position.z, radius);
        proof {
            assert forall|id: u32|
                #[trigger] self@.candidate(id, position, radius as int, excludes@)
                    && self.in_index(id) implies exists|k: int|
                0 <= k < found@.len() && (#[trigger] found@[k]).item == id by {
                let entry = entry_of(self.crops@[id]);
                assert(entry_reach(position.x, position.y, position.z, entry) == position.reach(
                    self.crops@[id].pos,
                ));
                let k = choose|k: int|
                    0 <= k < found@.len() && #[trigger] found@[k] == (Neighbour {
                        distance: entry_reach(position.x, position.y, position.z, entry) as i32,
                        item: entry.3,
                    });
                assert(found@[k].item == id);
            }
        }
        let mut i: usize = 0;
        while i < found.len()
            invariant
                self.wf(),
                0 <= i <= found@.len(),
                forall|j: int|
                    0 <= j < i ==> !self@.candidate(
                        (#[trigger] found@[j]).item,
                        position,
                        radius as int,
                        excludes@,
                    ),
                forall|a: int, b: int|
                    0 <= a <= b < found@.len() ==> (#[trigger] found@[a]).distance <= (
                    #[trigger] found@[b]).distance,
                forall|k: int|
                    0 <= k < found@.len() ==> {
                        &&& self.crops@.contains_key((#[trigger] found@[k]).item)
                        &&& position.reach(self.crops@[found@[k].item].pos) == found@[k].distance
                        &&& found@[k].distance <= radius
                    },
                forall|id: u32|
                    #[trigger] self@.candidate(id, position, radius as int, excludes@)
                        && self.in_index(id) ==> exists|k: int|
                        0 <= k < found@.len() && (#[trigger] found@[k]).item == id,
            decreases found@.len() - i,
        {
            let hit = found[i];
            let crop = self.crops.get(&hit.item).unwrap();
            if let Some(harvest_position) = crop.harvest_position {
                if !excludes.contains(harvest_position) {
                    proof {
                        assert forall|other: u32|
                            #[trigger] self@.candidate(other, position, radius as int, excludes@)
                                && self.in_index(other) implies hit.distance <= position.reach(
                            self@.crops[other].pos,
                        ) by {
                            let k = choose|k: int|
                                0 <= k < found@.len() && (#[trigger] found@[k]).item == other;
                            assert(i <= k);
                        }
                    }
                    return Some(hit);
                }
            }
            i += 1;
        }
        None
    }

    /// The nearest candidate among the crops of the list.
    fn nearest_listed(&self, position: BlockPos, radius: i32, excludes: &HarvestRegistry) -> (r:
        Option<Neighbour>)
        requires
            self.wf(),
        ensures
            match r {
                Some(hit) => {
                    &&& self@.candidate(hit.item, position, radius as int, excludes@)
                    &&& hit.distance == position.reach(self@.crops[hit.item].pos)
                    &&& forall|other: u32|
                        #[trigger] self@.candidate(other, position, radius as int, excludes@)
                            && self.unindexed@.contains(other) ==> hit.distance
                            <= position.reach(self@.crops[other].pos)
                },
                None => forall|id: u32|
                    #[trigger] self@.candidate(id, position, radius as int, excludes@)
                        ==> !self.unindexed@.contains(id),
            },
    {
        let mut best: Option<Neighbour> = None;
        let mut k: usize = 0;
        while k < self.unindexed.len()
            invariant
                self.wf(),
                0 <= k <= self.unindexed@.len(),
                match best {
                    Some(hit) => {
                        &&& self@.candidate(hit.item, position, radius as int, excludes@)
                        &&& hit.distance == position.reach(self@.crops[hit.item].pos)
                        &&& forall|j: int|
                            0 <= j < k && self@.candidate(
                                #[trigger] self.unindexed@[j],
                                position,
                                radius as int,
                                excludes@,
                            ) ==> hit.distance <= position.reach(
                                self@.crops[self.unindexed@[j]].pos,
                            )
                    },
                    None => forall|j: int|
                        0 <= j < k ==> !self@.candidate(
                            #[trigger] self.unindexed@[j],
                            position,
                            radius as int,
                            excludes@,
                        ),
                },
            decreases self.unindexed@.len() - k,
        {
            let id = self.unindexed[k];
            let crop = self.crops.get(&id).unwrap();
            if let Some(harvest_position) = crop.harvest_position {
                if !excludes.contains(harvest_position) {
                    let distance = position.capped_distance(crop.pos);
                    if distance <= radius {
                        let nearer = match best {
                            Some(hit) => distance < hit.distance,
                            None => true,
                        };
                        if nearer {
                            best = Some(Neighbour { distance, item: id });
                        }
                    }
                }
            }
            k += 1;
        }
        proof {
            assert forall|other: u32|
                #[trigger] self@.candidate(other, position, radius as int, excludes@)
                    && self.unindexed@.contains(other) implies match best {
                Some(hit) => hit.distance <= position.reach(self@.crops[other].pos),
                None => false,
            } by {
                let j = choose|j: int|
                    0 <= j < self.unindexed@.len() && self.unindexed@[j] == other;
                assert(self@.candidate(self.unindexed@[j], position, radius as int, excludes@));
            }
        }
        best
    }

    /// The harvest position of the nearest ripe crop within `radius` of
    /// `position`, by Manhattan distance to the crop, among the crops whose
    /// harvest position `excludes` does not hold. Of several crops at the
    /// least distance any one may be chosen. `None` if there is no such
    /// crop.
    pub fn nearest_harvest(
        &self,
        position: BlockPos,
        radius: i32,
        excludes: &HarvestRegistry,
    ) -> (r: Option<BlockPos>)
        requires
            self.wf(),
            position.in_range(),
        ensures
            match r {
                Some(target) => exists|id: u32| #[trigger]
                    self@.nearest(id, position, radius as int, excludes@)
                        && self@.crops[id].harvest_position == Some(target),
                None => forall|id: u32|
                    !#[trigger] self@.candidate(id, position, radius as int, excludes@),
            },
    {
        let indexed = self.nearest_indexed(position, radius, excludes);
        let listed = self.nearest_listed(position, radius, excludes);
        let best = match (indexed, listed) {
            (Some(a), Some(b)) => if b.distance < a.distance {
                Some(b)
            } else {
                Some(a)
            },
            (Some(a), None) => Some(a),
            (None, other) => other,
        };
        proof {
            assert forall|id: u32| #[trigger]
                self@.candidate(id, position, radius as int, excludes@) implies self.in_index(id)
                || self.unindexed@.contains(id) by {
                assert(self.crops@.contains_key(id));
            }
        }
        match best {
            Some(hit) => {
                proof {
                    assert(self@.nearest(hit.item, position, radius as int, excludes@));
                }
                self.crops.get(&hit.item).unwrap().harvest_position
            },
            None => None,
        }
    }

    /// Takes one block update: an empty cell is the removal of its block;
    /// any other state is classified, and a crop is filed. `below_one` and
    /// `below_two` are what the world holds one and two cells below the
    /// updated cell.
    pub fn handle_block_update(
        &mut self,
        update: &BlockUpdate,
        below_one: Option<BlockState>,
        below_two: Option<BlockState>,
    ) -> (outcome: UpdateOutcome)
        requires
            old(self).wf(),
            old(self)@.admits(*update, below_one, below_two),
        ensures
            final(self).wf(),
            outcome == Ledger::outcome(*update, below_one, below_two),
            final(self)@ == old(self)@.ingested(*update, below_one, below_two),
    {
        if update.block_state.is_air() {
            self.handle_block_removal(update.pos);
            return UpdateOutcome::Removal;
        }
        match Crop::from_block_update(update, below_one, below_two) {
            Some(crop) => {
                self.handle_crop_update(crop);
                UpdateOutcome::Filed
            },
            None => UpdateOutcome::Ignored,
        }
    }

    /// The crop that is tracked at `position`.
    pub fn crop_at(&self, position: BlockPos) -> (r: Option<Crop>)
        requires
            self.wf(),
        ensures
            r == self@.crop_at(position),
    {
        match self.identifiers.get(&position.key()) {
            Some(id) => match self.crops.get(id) {
                Some(crop) => Some(*crop),
                None => None,
            },
            None => None,
        }
    }

    /// How long the harvest loop is to rest before it looks again, in
    /// milliseconds: `IDLE_MILLIS` while nothing is ripe, else not at all.
    pub fn idle_pause(&self) -> (r: Option<u64>)
        requires
            self.wf(),
        ensures
            r == (if self@.ready_count() == 0 {
                Some(IDLE_MILLIS)
            } else {
                None
            }),
    {
        if self.harvest_size == 0 {
            Some(IDLE_MILLIS)
        } else {
            None
        }
    }

    /// The number of ripe crops.
    pub fn harvest_size(&self) -> (r: usize)
        requires
            self.wf(),
        ensures
            r == self.counter(),
            r == self@.ready_count(),
    {
        self.harvest_size
    }

    /// The number of tracked crops.
    pub fn size(&self) -> (r: usize)
        ensures
            r == self@.crops.dom().len(),
    {
        self.crops.len()
    }
}

/// After every operation the running count of ripe crops is the number of
/// crops in the table that have a harvest position.
pub proof fn lemma_counter_is_scan(registry: CropRegistry)
    requires
        registry.wf(),
    ensures
        registry.counter() == registry@.ready_count(),
        registry.counter() == registry@.crops.dom().filter(
            |id: u32| registry@.crops[id].harvest_position is Some,
        ).len(),
{
}

/// Every crop of the table has one place in the search: its entry in the
/// index, at its position and with its identifier, or its identifier in the
/// list. Neither holds anything else, and a crop keeps its place whether it
/// is ripe or not.
pub proof fn lemma_each_crop_is_searched(registry: CropRegistry)
    requires
        registry.wf(),
    ensures
        searched(registry.indexed(), registry.listed(), registry@.crops),
        forall|id: u32| #[trigger]
            registry@.crops.contains_key(id) ==> registry.indexed().contains(
                entry_of(registry@.crops[id]),
            ) != registry.listed().contains(id),
{
    assert forall|id: u32| #[trigger] registry@.crops.contains_key(id) implies registry.indexed().contains(
        entry_of(registry@.crops[id]),
    ) != registry.listed().contains(id) by {
        let entry = entry_of(registry@.crops[id]);
        if registry.indexed().contains(entry) {
            assert(!registry.listed().contains(entry.3));
        }
    }
}

/// The ledger of a registry that is whole is consistent: the table and the
/// position map are in bijection.
pub proof fn lemma_whole_is_consistent(registry: CropRegistry)
    requires
        registry.wf(),
    ensures
        registry@.consistent(),
{
}

} // verus!
