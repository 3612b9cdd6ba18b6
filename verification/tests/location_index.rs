use entity_core::handle::Entity;
use entity_core::index::{ArchetypeIndex, ComponentIndex, EntityLocation, LocationMap};

fn handle(v: u64) -> Entity {
    assert_ne!(v, 0);
    Entity::new(v)
}

fn loc(group: usize, offset: usize) -> EntityLocation {
    EntityLocation::new(ArchetypeIndex(group), ComponentIndex(offset))
}

#[test]
fn location_accessors_return_the_parts() {
    let l = loc(3, 9);
    assert_eq!(l.archetype(), ArchetypeIndex(3));
    assert_eq!(l.component(), ComponentIndex(9));
}

#[test]
fn set_then_get_round_trips() {
    let mut map = LocationMap::new();
    let h = handle(42);
    map.set(h, loc(1, 2));
    assert_eq!(map.get(h), Some(loc(1, 2)));
    assert!(map.contains(h));
    assert_eq!(map.len(), 1);
    assert!(!map.is_empty());
}

#[test]
fn set_overwrites_unconditionally() {
    let mut map = LocationMap::new();
    let h = handle(42);
    map.set(h, loc(1, 2));
    map.set(h, loc(5, 0));
    assert_eq!(map.get(h), Some(loc(5, 0)));
    assert_eq!(map.len(), 1);
}

#[test]
fn remove_then_get_is_absent() {
    let mut map = LocationMap::new();
    let h = handle(42);
    map.set(h, loc(1, 2));
    assert_eq!(map.remove(h), Some(loc(1, 2)));
    assert_eq!(map.get(h), None);
    assert!(!map.contains(h));
    assert!(map.is_empty());
}

#[test]
fn remove_absent_returns_none_and_changes_nothing() {
    let mut map = LocationMap::new();
    let present = handle(7);
    map.set(present, loc(4, 4));
    let absent = handle(8);
    assert_eq!(map.remove(absent), None);
    assert_eq!(map.len(), 1);
    assert_eq!(map.get(present), Some(loc(4, 4)));
}

#[test]
fn empty_map_has_no_entries() {
    let map = LocationMap::new();
    assert!(map.is_empty());
    assert_eq!(map.len(), 0);
    assert_eq!(map.get(handle(1)), None);
    assert!(!map.contains(handle(1)));
}

#[test]
fn default_map_is_empty() {
    let map = LocationMap::default();
    assert!(map.is_empty());
}

#[test]
fn bulk_insert_assigns_consecutive_offsets() {
    let mut map = LocationMap::new();
    let ids = [handle(10), handle(11), handle(12), handle(13)];
    let displaced = map.insert(&ids, ArchetypeIndex(2), ComponentIndex(5));
    assert!(displaced.is_empty());
    for (i, id) in ids.iter().enumerate() {
        assert_eq!(map.get(*id), Some(loc(2, 5 + i)));
    }
    assert_eq!(map.len(), 4);
}

#[test]
fn bulk_insert_returns_displaced_prior_locations() {
    let mut map = LocationMap::new();
    let ids = [handle(10), handle(11), handle(12), handle(13)];
    // Two of the four handles already have entries.
    map.set(ids[1], loc(9, 0));
    map.set(ids[3], loc(9, 1));
    let displaced = map.insert(&ids, ArchetypeIndex(2), ComponentIndex(5));
    // Exactly the prior locations of those handles, in run order.
    assert_eq!(displaced, vec![loc(9, 0), loc(9, 1)]);
    for (i, id) in ids.iter().enumerate() {
        assert_eq!(map.get(*id), Some(loc(2, 5 + i)));
    }
}

#[test]
fn bulk_insert_of_nothing_changes_nothing() {
    let mut map = LocationMap::new();
    map.set(handle(1), loc(0, 0));
    let displaced = map.insert(&[], ArchetypeIndex(2), ComponentIndex(5));
    assert!(displaced.is_empty());
    assert_eq!(map.len(), 1);
    assert_eq!(map.get(handle(1)), Some(loc(0, 0)));
}

#[test]
fn bulk_insert_leaves_other_handles_alone() {
    let mut map = LocationMap::new();
    let bystander = handle(99);
    map.set(bystander, loc(8, 8));
    let ids = [handle(10), handle(11)];
    map.insert(&ids, ArchetypeIndex(2), ComponentIndex(0));
    assert_eq!(map.get(bystander), Some(loc(8, 8)));
    assert_eq!(map.len(), 3);
}
