//! Plain 2- and 3-component vectors over the fixed-point scalar.

use vstd::prelude::*;

verus! {

use crate::fixed::fp_in_range;

/// A 2D point or direction; components are fixed-point scalars.
#[derive(Debug, Clone, Copy, PartialEq, Eq, Structural)]
pub struct Vec2 {
    pub x: i64,
    pub y: i64,
}

/// A 3D point or direction; components are fixed-point scalars.
#[derive(Debug, Clone, Copy, PartialEq, Eq, Structural)]
pub struct Vec3 {
    pub x: i64,
    pub y: i64,
    pub z: i64,
}

impl Vec2 {
    pub open spec fn in_range(self) -> bool {
        fp_in_range(self.x as int) && fp_in_range(self.y as int)
    }

    pub fn new(x: i64, y: i64) -> (v: Vec2)
        ensures
            v == (Vec2 { x, y }),
    {
        Vec2 { x, y }
    }

    pub fn zeros() -> (v: Vec2)
        ensures
            v == (Vec2 { x: 0, y: 0 }),
    {
        Vec2 { x: 0, y: 0 }
    }

    pub fn plus(self, other: Vec2) -> (v: Vec2)
        requires
            fp_in_range(self.x + other.x),
            fp_in_range(self.y + other.y),
        ensures
            v == (Vec2 { x: (self.x + other.x) as i64, y: (self.y + other.y) as i64 }),
    {
        Vec2 { x: self.x + other.x, y: self.y + other.y }
    }

    pub fn minus(self, other: Vec2) -> (v: Vec2)
        requires
            fp_in_range(self.x - other.x),
            fp_in_range(self.y - other.y),
        ensures
            v == (Vec2 { x: (self.x - other.x) as i64, y: (self.y - other.y) as i64 }),
    {
        Vec2 { x: self.x - other.x, y: self.y - other.y }
    }
}

impl Vec3 {
    pub open spec fn in_range(self) -> bool {
        fp_in_range(self.x as int) && fp_in_range(self.y as int) && fp_in_range(self.z as int)
    }

    pub fn new(x: i64, y: i64, z: i64) -> (v: Vec3)
        ensures
            v == (Vec3 { x, y, z }),
    {
        Vec3 { x, y, z }
    }

    pub fn zeros() -> (v: Vec3)
        ensures
            v == (Vec3 { x: 0, y: 0, z: 0 }),
    {
        Vec3 { x: 0, y: 0, z: 0 }
    }
}

} // verus!
