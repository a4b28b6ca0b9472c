//! Identifiers of entities and of component types.

use vstd::prelude::*;

verus! {

/// Identifies one entity (one row) of the store.
///
/// The entity may already have been despawned by the time it is read.
#[derive(Clone, Copy, Debug, PartialEq, Eq, Hash, Structural)]
pub struct Entity {
    pub index: u32,
    pub generation: u32,
}

impl Entity {
    /// An entity with the given row index in its first generation.
    pub fn from_raw(index: u32) -> (r: Entity)
        ensures
            r.index == index,
            r.generation == 0,
    {
        Entity { index, generation: 0 }
    }
}

/// Stable identifier of one component type in a store.
#[derive(Clone, Copy, Debug, PartialEq, Eq, Hash, Structural)]
pub struct ComponentId(pub usize);

impl ComponentId {
    pub fn new(index: usize) -> (r: ComponentId)
        ensures
            r.0 == index,
    {
        ComponentId(index)
    }

    pub fn index(&self) -> (r: usize)
        ensures
            r == self.0,
    {
        self.0
    }
}

} // verus!
