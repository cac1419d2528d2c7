use vstd::prelude::*;

verus! {

/// A two-component vector of fixed-point scalars.
#[derive(Clone, Copy, PartialEq, Eq, Structural, Debug)]
pub struct Vec2Fx {
    pub x: i64,
    pub y: i64,
}

impl Vec2Fx {
    /// Builds a vector from its components.
    pub fn new(x: i64, y: i64) -> (v: Vec2Fx)
        ensures
            v.x == x,
            v.y == y,
    {
        Vec2Fx { x, y }
    }
}

/// The pointer displacement gathered over one tick, handed to the camera
/// update as an immutable snapshot.
#[derive(Clone, Copy, PartialEq, Eq, Structural, Debug)]
pub struct MouseInput {
    pub mouse_delta: Vec2Fx,
}

/// Which of the six directional thrust requests are held this tick.
#[derive(Clone, Copy, PartialEq, Eq, Structural, Debug)]
pub struct KeyFlags {
    pub forward: bool,
    pub back: bool,
    pub left: bool,
    pub right: bool,
    pub up: bool,
    pub down: bool,
}

impl KeyFlags {
    /// No request held.
    pub fn none() -> (k: KeyFlags)
        ensures
            !k.forward && !k.back && !k.left && !k.right && !k.up && !k.down,
    {
        KeyFlags { forward: false, back: false, left: false, right: false, up: false, down: false }
    }
}

} // verus!
