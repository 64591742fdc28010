//! The data records that entities carry.

mod camera;
mod hero;
mod mob;
mod physics;
mod portal;
mod states;

pub use self::{
    camera::{Camera, CameraTarget},
    hero::Hero,
    mob::Mob,
    physics::{Body, CollisionMarker, Dynamic, Shape, Transform, Velocity},
    portal::Portal,
    states::{Active, InstanceCompat, OverworldCompat},
};
