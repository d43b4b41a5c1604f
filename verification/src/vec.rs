//! Plain fixed-point vectors for world-space positions and offsets.

use vstd::prelude::*;

verus! {

/// A 2D fixed-point vector.  For ground-plane positions `x` is the world
/// x axis and `y` the world z axis, mirroring the planar convention of the
/// hex layout.
#[derive(Clone, Copy, PartialEq, Eq, Structural, Debug)]
pub struct Vec2Fx {
    /// First component, in fixed-point subunits.
    pub x: i64,
    /// Second component, in fixed-point subunits.
    pub y: i64,
}

/// A 3D fixed-point vector; `y` is the vertical (height) axis.
#[derive(Clone, Copy, PartialEq, Eq, Structural, Debug)]
pub struct Vec3Fx {
    /// World x component, in fixed-point subunits.
    pub x: i64,
    /// Height component, in fixed-point subunits.
    pub y: i64,
    /// World z component, in fixed-point subunits.
    pub z: i64,
}

impl Vec2Fx {
    /// The zero vector.
    pub fn zero() -> (r: Vec2Fx)
        ensures
            r == (Vec2Fx { x: 0, y: 0 }),
    {
        Vec2Fx { x: 0, y: 0 }
    }

    /// Builds a vector from its components.
    pub fn new(x: i64, y: i64) -> (r: Vec2Fx)
        ensures
            r == (Vec2Fx { x, y }),
    {
        Vec2Fx { x, y }
    }
}

impl Vec3Fx {
    /// The zero vector.
    pub fn zero() -> (r: Vec3Fx)
        ensures
            r == (Vec3Fx { x: 0, y: 0, z: 0 }),
    {
        Vec3Fx { x: 0, y: 0, z: 0 }
    }

    /// Builds a vector from its components.
    pub fn new(x: i64, y: i64, z: i64) -> (r: Vec3Fx)
        ensures
            r == (Vec3Fx { x, y, z }),
    {
        Vec3Fx { x, y, z }
    }
}

} // verus!
