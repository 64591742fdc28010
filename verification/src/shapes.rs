//! The two shapes a body or a trigger zone can have.

use vstd::prelude::*;
use crate::vector::Vector;

verus! {

/// A disc around its centre.
#[derive(PartialEq, Eq, Copy, Clone, Debug, Structural)]
pub struct Ball {
    pub radius: i32,
}

/// An axis-aligned rectangle around its centre, given by half its width and
/// half its height.
#[derive(PartialEq, Eq, Copy, Clone, Debug, Structural)]
pub struct Cuboid {
    pub half_extents: Vector,
}

impl Ball {
    /// A disc is valid when its radius is positive.
    pub open spec fn valid(self) -> bool {
        self.radius > 0
    }

    /// The disc of the given radius.
    pub fn new(radius: i32) -> (ball: Ball)
        ensures
            ball.radius == radius,
    {
        Ball { radius }
    }
}

impl Cuboid {
    /// A rectangle is valid when neither half extent is negative.
    pub open spec fn valid(self) -> bool {
        self.half_extents.x >= 0 && self.half_extents.y >= 0
    }

    /// The rectangle of the given half width and half height.
    pub fn new(half_extents: Vector) -> (cuboid: Cuboid)
        ensures
            cuboid.half_extents == half_extents,
    {
        Cuboid { half_extents }
    }

    /// Whether `point` lies in the rectangle centred at `center`, its border
    /// included.
    pub open spec fn covers(self, center: Vector, point: Vector) -> bool {
        &&& -self.half_extents.x <= point.x - center.x <= self.half_extents.x
        &&& -self.half_extents.y <= point.y - center.y <= self.half_extents.y
    }

    /// Tests whether `point` lies in the rectangle centred at `center`, its
    /// border included.
    pub fn contains_point(&self, center: &Vector, point: &Vector) -> (inside: bool)
        ensures
            inside == self.covers(*center, *point),
    {
        let dx: i64 = point.x as i64 - center.x as i64;
        let dy: i64 = point.y as i64 - center.y as i64;
        let hx: i64 = self.half_extents.x as i64;
        let hy: i64 = self.half_extents.y as i64;
        -hx <= dx && dx <= hx && -hy <= dy && dy <= hy
    }
}

} // verus!
