use vstd::prelude::*;
use crate::shapes::{Ball, Cuboid};
use crate::vector::Vector;

verus! {

/// Where an entity is. `z` orders what is drawn and plays no part in the
/// simulation.
#[derive(PartialEq, Eq, Copy, Clone, Debug, Structural)]
pub struct Transform {
    pub translation: Vector,
    pub z: i32,
}

impl Transform {
    /// The transform of an entity at the origin.
    pub fn new() -> (transform: Transform)
        ensures
            transform == (Transform { translation: Vector { x: 0, y: 0 }, z: 0 }),
    {
        Transform { translation: Vector { x: 0, y: 0 }, z: 0 }
    }

    /// The transform of an entity at `(x, y)`, drawn at depth `z`.
    pub fn at(x: i32, y: i32, z: i32) -> (transform: Transform)
        ensures
            transform == (Transform { translation: Vector { x, y }, z }),
    {
        Transform { translation: Vector { x, y }, z }
    }
}

/// How an entity moves in one tick: along `direction`, a vector of length
/// `SCALE` or zero, by `speed`.
#[derive(PartialEq, Eq, Copy, Clone, Debug, Structural)]
pub struct Velocity {
    pub direction: Vector,
    pub speed: i32,
}

impl Velocity {
    /// The velocity of an entity at rest.
    pub open spec fn resting() -> Velocity {
        Velocity { direction: Vector { x: 0, y: 0 }, speed: 0 }
    }

    /// Create a new velocity with default values.
    pub fn new() -> (velocity: Velocity)
        ensures
            velocity == Self::resting(),
    {
        Velocity { direction: Vector { x: 0, y: 0 }, speed: 0 }
    }

    /// Reset the velocity to its default values.
    pub fn reset(&mut self)
        ensures
            *final(self) == Self::resting(),
    {
        self.direction = Vector { x: 0, y: 0 };
        self.speed = 0;
    }
}

/// What takes part in collisions.
#[derive(PartialEq, Eq, Copy, Clone, Debug, Structural)]
pub struct Body {
    pub shape: Shape,
    pub dynamic: Dynamic,
}

/// The outline of a body.
#[allow(inconsistent_fields)]
#[derive(PartialEq, Eq, Copy, Clone, Debug, Structural)]
pub enum Shape {
    Circle { shape: Ball },
    Box { shape: Cuboid },
}

impl Shape {
    /// A shape is valid when its disc or its rectangle is.
    pub open spec fn valid(self) -> bool {
        match self {
            Shape::Circle { shape } => shape.valid(),
            Shape::Box { shape } => shape.valid(),
        }
    }
}

/// Whether a collision moves the body.
#[derive(PartialEq, Eq, Copy, Clone, Debug, Structural)]
pub enum Dynamic {
    /// An obstacle that nothing moves.
    Static,
    /// A body that is pushed out of what it runs into.
    Dynamic,
}

/// The displacement that frees an entity from a collision found in this
/// tick.
#[derive(PartialEq, Eq, Copy, Clone, Debug, Structural)]
pub struct CollisionMarker {
    pub penetration: Vector,
}

impl CollisionMarker {
    /// The mark that asks for the displacement `penetration`.
    pub fn new(penetration: Vector) -> (marker: CollisionMarker)
        ensures
            marker.penetration == penetration,
    {
        CollisionMarker { penetration }
    }
}

} // verus!
