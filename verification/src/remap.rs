//! The remapping hook: gives duplication of a handle a well-defined meaning
//! during data-set merges.
//!
//! When entities are merged from one data set into another, each incoming
//! handle gets a freshly allocated counterpart in the destination. The merge
//! orchestrator installs those pairs here, and every code path that
//! duplicates a handle during the merge consults the table: a handle with an
//! entry duplicates to its new counterpart, any other handle duplicates to
//! itself (ordinary copy semantics).
//!
//! In the surrounding runtime the table is thread-scoped ambient state; here
//! it is an explicit context passed to duplication calls, so merges spanning
//! several worker threads can propagate it explicitly and tests can build
//! one in isolation.

use vstd::prelude::*;
use vstd::std_specs::hash::group_hash_axioms;

use crate::handle::Entity;
use std::collections::HashMap;

verus! {

broadcast use group_hash_axioms;

/// What duplicating handle `e` under remap table `t` yields: the mapped
/// replacement if one is installed, the handle itself otherwise.
pub open spec fn remapped(t: Map<u64, Entity>, e: Entity) -> Entity {
    if t.contains_key(e@) {
        t[e@]
    } else {
        e
    }
}

/// A table of handle replacements, consulted when a handle is duplicated
/// across a data-set-merge boundary.
///
/// This component only reads the table during duplication; installing and
/// clearing entries is the merge orchestrator's job, done through
/// [`RemapTable::install`] and [`RemapTable::clear`].
#[derive(Debug, Clone)]
pub struct RemapTable {
    map: HashMap<u64, Entity>,
}

impl View for RemapTable {
    type V = Map<u64, Entity>;

    closed spec fn view(&self) -> Map<u64, Entity> {
        self.map@
    }
}

impl RemapTable {
    /// Constructs an empty remap table: one under which every handle
    /// duplicates to itself.
    pub fn new() -> (t: RemapTable)
        ensures
            t@ == Map::<u64, Entity>::empty(),
    {
        RemapTable { map: HashMap::new() }
    }

    /// Installs a replacement: while the entry is present, duplicating
    /// `from` yields `to`. Called by the merge orchestrator for each handle
    /// it has re-allocated in the destination data set.
    pub fn install(&mut self, from: Entity, to: Entity)
        ensures
            final(self)@ == old(self)@.insert(from@, to),
    {
        self.map.insert(from.value(), to);
    }

    /// Removes every entry, restoring ordinary copy semantics for all
    /// handles. Called by the merge orchestrator when a merge ends.
    pub fn clear(&mut self)
        ensures
            final(self)@ == Map::<u64, Entity>::empty(),
    {
        self.map.clear();
    }

    /// Duplicates a handle under this table: yields the installed
    /// replacement if the handle has an entry, the handle unchanged
    /// otherwise.
    pub fn duplicate(&self, entity: Entity) -> (r: Entity)
        ensures
            r == remapped(self@, entity),
    {
        match self.map.get(&entity.value()) {
            Some(replacement) => *replacement,
            None => entity,
        }
    }
}

impl Default for RemapTable {
    /// Same as [`RemapTable::new`]: an empty table.
    fn default() -> (t: RemapTable)
        ensures
            t@ == Map::<u64, Entity>::empty(),
    {
        RemapTable::new()
    }
}

/// Remap transparency: with no entries installed every handle duplicates to
/// itself; with an entry `from -> to` installed, `from` duplicates to `to`
/// while any other handle is unaffected by that entry.
pub proof fn lemma_remap_transparency(t: Map<u64, Entity>, from: Entity, to: Entity, other: Entity)
    ensures
        remapped(Map::<u64, Entity>::empty(), other) == other,
        remapped(t.insert(from@, to), from) == to,
        other@ != from@ ==> remapped(t.insert(from@, to), other) == remapped(t, other),
{
}

} // verus!
