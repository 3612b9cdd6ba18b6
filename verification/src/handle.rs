//! The entity handle: an opaque, copyable, 64-bit non-zero identifier.

use vstd::prelude::*;

verus! {

/// An opaque identifier for an entity.
///
/// The zero value is reserved as a "no handle" sentinel and is never issued
/// by an allocator, so `Option<Entity>` can always be told apart from any
/// issued handle by value alone. Equality and hashing are by raw value.
#[derive(Debug, Clone, Copy, PartialEq, Eq, Hash, Structural)]
pub struct Entity(u64);

impl View for Entity {
    type V = u64;

    closed spec fn view(&self) -> u64 {
        self.0
    }
}

impl Entity {
    /// Wraps a raw non-zero value as a handle.
    ///
    /// Zero is the reserved sentinel and is not a handle.
    pub fn new(value: u64) -> (e: Entity)
        requires
            value != 0,
        ensures
            e@ == value,
    {
        Entity(value)
    }

    /// Returns the raw 64-bit value of the handle.
    pub fn value(&self) -> (v: u64)
        ensures
            v == self@,
    {
        self.0
    }
}

} // verus!
