//! The pointer's world-space position, as the input layer last reported it.

use vstd::prelude::*;

use crate::geom::Vec2;

verus! {

/// Where the pointer is in world coordinates. The windowing layer unprojects
/// the cursor through the camera and hands the result to the simulation.
#[derive(Clone, Copy, PartialEq, Eq, Structural, Debug)]
pub struct MousePos {
    pub pos: Vec2,
}

impl Default for MousePos {
    /// The pointer starts at the origin until the input layer reports it.
    fn default() -> (m: MousePos)
        ensures
            m.pos == (Vec2 { x: 0, y: 0 }),
    {
        MousePos { pos: Vec2 { x: 0, y: 0 } }
    }
}

} // verus!
