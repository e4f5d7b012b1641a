//! A two-component integer vector: sizes, offsets and positions.

use vstd::prelude::*;

verus! {

/// A pair of integer coordinates.
#[derive(Copy, Clone, Debug, PartialEq, Eq, Hash, Structural, Default)]
pub struct IVec2 {
    pub x: i32,
    pub y: i32,
}

impl IVec2 {
    /// The vector with the given components.
    pub fn new(x: i32, y: i32) -> (v: Self)
        ensures
            v == (IVec2 { x, y }),
    {
        Self { x, y }
    }
}

} // verus!
