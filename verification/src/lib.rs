//! Identity and indirection layer for an entity-oriented data runtime.
//!
//! Three components: a handle allocator that mints globally-unique, never
//! reused handles by claiming fixed-size batches from a shared counter; a
//! location index mapping each handle to the storage group and offset where
//! its data resides; and a remapping hook consulted when handles are
//! duplicated across a data-set-merge boundary.

pub mod allocator;
pub mod handle;
pub mod index;
pub mod remap;
