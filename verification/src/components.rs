use vstd::prelude::*;

verus! {

/// A position on the map, in tile coordinates.
#[derive(PartialEq, Eq, Structural, Copy, Clone, Debug)]
pub struct Position {
    pub x: i32,
    pub y: i32,
}

} // verus!
