//! The location index: a map from entity handle to the physical location of
//! the entity's data, supporting point lookups, point upserts, bulk
//! contiguous inserts, and removal.
//!
//! An entry exists for a handle exactly while that handle's data is resident
//! in some storage group; a handle with no entry is unallocated, not yet
//! placed, or destroyed, which the caller's protocol must tell apart.

use vstd::prelude::*;
use vstd::std_specs::hash::group_hash_axioms;

use crate::handle::Entity;
use std::collections::HashMap;

verus! {

broadcast use group_hash_axioms;

/// Index of a storage group ("archetype") within the owning data set.
#[derive(Debug, Clone, Copy, PartialEq, Eq, Structural)]
pub struct ArchetypeIndex(pub usize);

/// Offset of an entity's data within its storage group.
#[derive(Debug, Clone, Copy, PartialEq, Eq, Structural)]
pub struct ComponentIndex(pub usize);

/// The storage location of an entity's data: which group holds it and at
/// what offset. An immutable value; callers replace it wholesale when data
/// moves.
#[derive(Debug, Clone, Copy, PartialEq, Eq, Structural)]
pub struct EntityLocation(pub ArchetypeIndex, pub ComponentIndex);

impl EntityLocation {
    /// Constructs a new entity location.
    pub fn new(archetype: ArchetypeIndex, component: ComponentIndex) -> (loc: EntityLocation)
        ensures
            loc == EntityLocation(archetype, component),
    {
        EntityLocation(archetype, component)
    }

    /// Returns the entity's archetype index.
    pub fn archetype(&self) -> (a: ArchetypeIndex)
        ensures
            a == self.0,
    {
        self.0
    }

    /// Returns the entity's component index within its archetype.
    pub fn component(&self) -> (c: ComponentIndex)
        ensures
            c == self.1,
    {
        self.1
    }
}

/// The location a bulk insert at base offset `base` in group `arch` assigns
/// to the handle at position `off` of the run.
pub open spec fn location_at(arch: ArchetypeIndex, off: int) -> EntityLocation {
    EntityLocation(arch, ComponentIndex(off as usize))
}

/// The index contents after the handles of `ids` are placed contiguously in
/// group `arch` starting at offset `base`: position `i` of the run is bound
/// to offset `base + i`, in order, each binding overwriting any earlier one
/// for the same handle.
pub open spec fn bulk_locations(
    m: Map<u64, EntityLocation>,
    ids: Seq<Entity>,
    arch: ArchetypeIndex,
    base: int,
) -> Map<u64, EntityLocation>
    decreases ids.len(),
{
    if ids.len() == 0 {
        m
    } else {
        bulk_locations(m, ids.drop_last(), arch, base).insert(
            ids.last()@,
            location_at(arch, base + ids.len() - 1),
        )
    }
}

/// The locations a bulk insert displaces: for each handle of `ids` already
/// bound when its turn comes, the binding it overwrites, in run order.
pub open spec fn bulk_displaced(
    m: Map<u64, EntityLocation>,
    ids: Seq<Entity>,
    arch: ArchetypeIndex,
    base: int,
) -> Seq<EntityLocation>
    decreases ids.len(),
{
    if ids.len() == 0 {
        Seq::empty()
    } else {
        let before = bulk_locations(m, ids.drop_last(), arch, base);
        let rest = bulk_displaced(m, ids.drop_last(), arch, base);
        if before.contains_key(ids.last()@) {
            rest.push(before[ids.last()@])
        } else {
            rest
        }
    }
}

/// The bindings of `ids` before a bulk insert: for each handle of `ids`
/// that is bound in `m`, its location, in run order.
pub open spec fn prior_locations(m: Map<u64, EntityLocation>, ids: Seq<Entity>) -> Seq<
    EntityLocation,
>
    decreases ids.len(),
{
    if ids.len() == 0 {
        Seq::empty()
    } else {
        let rest = prior_locations(m, ids.drop_last());
        if m.contains_key(ids.last()@) {
            rest.push(m[ids.last()@])
        } else {
            rest
        }
    }
}

/// A bulk insert leaves handles outside the run untouched: a key that is
/// not among `ids` is bound after exactly as it was before.
pub proof fn lemma_bulk_untouched(
    m: Map<u64, EntityLocation>,
    ids: Seq<Entity>,
    arch: ArchetypeIndex,
    base: int,
    k: u64,
)
    requires
        forall|i: int| 0 <= i < ids.len() ==> (#[trigger] ids[i])@ != k,
    ensures
        bulk_locations(m, ids, arch, base).contains_key(k) == m.contains_key(k),
        m.contains_key(k) ==> bulk_locations(m, ids, arch, base)[k] == m[k],
    decreases ids.len(),
{
    if ids.len() > 0 {
        assert(ids.last() == ids[ids.len() - 1]);
        lemma_bulk_untouched(m, ids.drop_last(), arch, base, k);
    }
}

/// Bulk insert correctness: inserting pairwise-distinct handles `ids` at
/// group `arch`, base offset `base` binds the `i`-th handle to offset
/// `base + i` of that group, and the displaced locations are exactly the
/// prior locations of those handles that already had entries, in run order.
pub proof fn lemma_bulk_insert(
    m: Map<u64, EntityLocation>,
    ids: Seq<Entity>,
    arch: ArchetypeIndex,
    base: int,
)
    requires
        forall|i: int, j: int| 0 <= i < j < ids.len() ==> ids[i]@ != ids[j]@,
    ensures
        forall|i: int|
            0 <= i < ids.len() ==> bulk_locations(m, ids, arch, base).contains_key(
                (#[trigger] ids[i])@,
            ),
        forall|i: int|
            0 <= i < ids.len() ==> bulk_locations(m, ids, arch, base)[(#[trigger] ids[i])@]
                == location_at(arch, base + i),
        bulk_displaced(m, ids, arch, base) == prior_locations(m, ids),
    decreases ids.len(),
{
    if ids.len() > 0 {
        let pre = ids.drop_last();
        let last = ids.last();
        lemma_bulk_insert(m, pre, arch, base);
        assert(forall|i: int| 0 <= i < pre.len() ==> (#[trigger] pre[i])@ != last@);
        lemma_bulk_untouched(m, pre, arch, base, last@);
        assert forall|i: int| 0 <= i < ids.len() implies bulk_locations(m, ids, arch, base)
            .contains_key((#[trigger] ids[i])@) && bulk_locations(m, ids, arch, base)[ids[i]@]
            == location_at(arch, base + i) by {
            if i < ids.len() - 1 {
                assert(pre[i] == ids[i]);
                assert(ids[i]@ != last@);
            }
        }
    }
}

/// A map of entity handles to their storage locations.
///
/// Keys are unique and unordered; lookups, upserts and removals are
/// amortized constant time. In the surrounding runtime the table is keyed by
/// a hasher specialized to handle values (they are process-generated and
/// never adversarial, so no mixing is needed); that choice is outside this
/// component and only affects speed, never the contents.
#[derive(Debug, Clone)]
pub struct LocationMap {
    map: HashMap<u64, EntityLocation>,
}

impl View for LocationMap {
    type V = Map<u64, EntityLocation>;

    closed spec fn view(&self) -> Map<u64, EntityLocation> {
        self.map@
    }
}

impl LocationMap {
    /// Constructs an empty location map.
    pub fn new() -> (m: LocationMap)
        ensures
            m@ == Map::<u64, EntityLocation>::empty(),
    {
        LocationMap { map: HashMap::new() }
    }

    /// Returns the number of entities in the map.
    pub fn len(&self) -> (n: usize)
        ensures
            n == self@.len(),
    {
        self.map.len()
    }

    /// Returns `true` if the location map is empty.
    pub fn is_empty(&self) -> (r: bool)
        ensures
            r == (self@.len() == 0),
    {
        self.map.is_empty()
    }

    /// Returns `true` if the location map contains the given entity.
    pub fn contains(&self, entity: Entity) -> (r: bool)
        ensures
            r == self@.contains_key(entity@),
    {
        self.map.contains_key(&entity.value())
    }

    /// Inserts a collection of adjacent entities into the location map:
    /// the `i`-th handle of `ids` is bound to offset `base + i` of group
    /// `arch`. Returns the previous locations of any handles that already
    /// had entries, in run order.
    pub fn insert(&mut self, ids: &[Entity], arch: ArchetypeIndex, base: ComponentIndex) -> (displaced: Vec<
        EntityLocation,
    >)
        requires
            base.0 + ids@.len() <= usize::MAX,
        ensures
            final(self)@ == bulk_locations(old(self)@, ids@, arch, base.0 as int),
            displaced@ == bulk_displaced(old(self)@, ids@, arch, base.0 as int),
    {
        let ComponentIndex(base_offset) = base;
        let mut displaced: Vec<EntityLocation> = Vec::new();
        let mut i: usize = 0;
        while i < ids.len()
            invariant
                i <= ids@.len(),
                base_offset + ids@.len() <= usize::MAX,
                base_offset == base.0,
                self@ == bulk_locations(old(self)@, ids@.take(i as int), arch, base_offset as int),
                displaced@ == bulk_displaced(
                    old(self)@,
                    ids@.take(i as int),
                    arch,
                    base_offset as int,
                ),
            decreases ids@.len() - i,
        {
            let entity = ids[i];
            let location = EntityLocation(arch, ComponentIndex(base_offset + i));
            let prior = self.map.insert(entity.value(), location);
            proof {
                assert(ids@.take(i + 1).drop_last() =~= ids@.take(i as int));
                assert(ids@.take(i + 1).last() == ids@[i as int]);
            }
            if let Some(loc) = prior {
                displaced.push(loc);
            }
            i = i + 1;
        }
        proof {
            assert(ids@.take(ids@.len() as int) =~= ids@);
        }
        displaced
    }

    /// Inserts or updates the location of an entity.
    pub fn set(&mut self, entity: Entity, location: EntityLocation)
        ensures
            final(self)@ == old(self)@.insert(entity@, location),
    {
        self.map.insert(entity.value(), location);
    }

    /// Returns the location of an entity, or `None` if the entity's data is
    /// not currently placed in any storage group.
    pub fn get(&self, entity: Entity) -> (r: Option<EntityLocation>)
        ensures
            r == if self@.contains_key(entity@) {
                Some(self@[entity@])
            } else {
                None::<EntityLocation>
            },
    {
        match self.map.get(&entity.value()) {
            Some(location) => Some(*location),
            None => None,
        }
    }

    /// Removes an entity from the location map, returning its prior
    /// location, or `None` if it had no entry (in which case the map is
    /// unchanged).
    pub fn remove(&mut self, entity: Entity) -> (r: Option<EntityLocation>)
        ensures
            final(self)@ == old(self)@.remove(entity@),
            r == if old(self)@.contains_key(entity@) {
                Some(old(self)@[entity@])
            } else {
                None::<EntityLocation>
            },
    {
        self.map.remove(&entity.value())
    }
}

/// Index round-trip: after [`LocationMap::set`] binds `h` to `l`, a
/// [`LocationMap::get`] of `h` returns `l`; after [`LocationMap::remove`]
/// deletes `h`, a `get` of `h` reports absence; and removing an absent
/// handle leaves the index unchanged.
pub proof fn lemma_index_round_trip(m: Map<u64, EntityLocation>, h: Entity, l: EntityLocation)
    ensures
        m.insert(h@, l).contains_key(h@),
        m.insert(h@, l)[h@] == l,
        !m.remove(h@).contains_key(h@),
        !m.contains_key(h@) ==> m.remove(h@) == m,
{
    if !m.contains_key(h@) {
        assert(m.remove(h@) =~= m);
    }
}

impl Default for LocationMap {
    /// Same as [`LocationMap::new`]: an empty map.
    fn default() -> (m: LocationMap)
        ensures
            m@ == Map::<u64, EntityLocation>::empty(),
    {
        LocationMap::new()
    }
}

} // verus!
