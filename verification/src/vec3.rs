//! Points in world space.

use vstd::prelude::*;
use crate::fixed::{lemma_product_bound, REACH_LIMIT, WORLD_LIMIT};

verus! {

/// A point or displacement in world space; each coordinate counts millionths of a unit.
#[derive(Clone, Copy, Debug, PartialEq, Eq)]
pub struct Vec3 {
    pub x: i64,
    pub y: i64,
    pub z: i64,
}

/// The mathematical point that a [`Vec3`] stands for, with unbounded coordinates.
pub struct Point3 {
    pub x: int,
    pub y: int,
    pub z: int,
}

impl Point3 {
    /// The sum of two displacements.
    pub open spec fn plus(self, other: Point3) -> Point3 {
        Point3 { x: self.x + other.x, y: self.y + other.y, z: self.z + other.z }
    }

    /// The displacement that leads from `other` to this point.
    pub open spec fn minus(self, other: Point3) -> Point3 {
        Point3 { x: self.x - other.x, y: self.y - other.y, z: self.z - other.z }
    }
}

impl View for Vec3 {
    type V = Point3;

    open spec fn view(&self) -> Point3 {
        Point3 { x: self.x as int, y: self.y as int, z: self.z as int }
    }
}

/// The square of the Euclidean distance between two points, in squared millionths.
///
/// Distances are never negative, so ordering points by this value orders them by
/// their Euclidean distance.
pub open spec fn squared_distance(a: Point3, b: Point3) -> int {
    (a.x - b.x) * (a.x - b.x) + (a.y - b.y) * (a.y - b.y) + (a.z - b.z) * (a.z - b.z)
}

impl Vec3 {
    /// Every coordinate lies in `[-limit, limit]`.
    pub open spec fn within(self, limit: int) -> bool {
        &&& -limit <= self.x <= limit
        &&& -limit <= self.y <= limit
        &&& -limit <= self.z <= limit
    }

    /// The point is a legal position for a shooter or a target.
    pub open spec fn in_world(self) -> bool {
        self.within(WORLD_LIMIT as int)
    }

    /// The point is a legal control point of a curve.
    pub open spec fn in_reach(self) -> bool {
        self.within(REACH_LIMIT as int)
    }

    /// The point with the given coordinates.
    pub fn new(x: i64, y: i64, z: i64) -> (v: Vec3)
        ensures
            v == (Vec3 { x, y, z }),
    {
        Vec3 { x, y, z }
    }

    /// Tests whether the point may serve as a shooter or target position.
    pub fn is_in_world(&self) -> (ok: bool)
        ensures
            ok == self.in_world(),
    {
        -WORLD_LIMIT <= self.x && self.x <= WORLD_LIMIT && -WORLD_LIMIT <= self.y && self.y
            <= WORLD_LIMIT && -WORLD_LIMIT <= self.z && self.z <= WORLD_LIMIT
    }

    /// Tests whether the point may serve as a control point.
    pub fn is_in_reach(&self) -> (ok: bool)
        ensures
            ok == self.in_reach(),
    {
        -REACH_LIMIT <= self.x && self.x <= REACH_LIMIT && -REACH_LIMIT <= self.y && self.y
            <= REACH_LIMIT && -REACH_LIMIT <= self.z && self.z <= REACH_LIMIT
    }

    /// The squared Euclidean distance to `other`.
    pub fn distance_squared(&self, other: &Vec3) -> (d: i128)
        requires
            self.in_reach(),
            other.in_reach(),
        ensures
            d == squared_distance(self@, other@),
    {
        let dx: i128 = self.x as i128 - other.x as i128;
        let dy: i128 = self.y as i128 - other.y as i128;
        let dz: i128 = self.z as i128 - other.z as i128;
        proof {
            let b: int = 2 * REACH_LIMIT;
            lemma_product_bound(dx as int, dx as int, b, b);
            lemma_product_bound(dy as int, dy as int, b, b);
            lemma_product_bound(dz as int, dz as int, b, b);
        }
        dx * dx + dy * dy + dz * dz
    }
}

} // verus!
