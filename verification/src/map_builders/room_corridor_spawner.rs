use vstd::prelude::*;

verus! {

/// Spawns entities along the corridors.
pub struct CorridorSpawner {}

impl CorridorSpawner {
    pub fn new() -> (b: Box<CorridorSpawner>) {
        Box::new(CorridorSpawner {})
    }
}

} // verus!
