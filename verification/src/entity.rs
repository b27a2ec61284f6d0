//! Entity identifiers: an index into the world's slots paired with a
//! generation counter, so a handle left over from before a slot was
//! destroyed and reused can be told apart from the slot's current owner.

use vstd::prelude::*;

verus! {

/// An opaque handle to one entity. Cheap to copy; carries no data.
///
/// The `index` names a slot in the world; the `generation` must match the
/// slot's current generation for the handle to be considered live. A world
/// bumps a slot's generation when the slot's entity is destroyed, so stale
/// handles are rejected rather than silently aliasing a later entity.
#[derive(Clone, Copy, PartialEq, Eq, Structural, Debug, Hash)]
pub struct Entity {
    pub index: usize,
    pub generation: u64,
}

impl Entity {
    /// Builds the handle with the given slot index and generation.
    pub fn new(index: usize, generation: u64) -> (e: Entity)
        ensures
            e.index == index,
            e.generation == generation,
    {
        Entity { index, generation }
    }
}

} // verus!
