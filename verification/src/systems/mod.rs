//! The rules of the simulation, one system for each.

pub mod camera_targeting;
pub mod hero_movement;
pub mod mob;
pub mod physics;
pub mod portal;

pub use self::camera_targeting::CameraTargetingSystem;
pub use self::hero_movement::HeroMovementSystem;
pub use self::mob::{MobMovementSystem, MobTargetSystem};
pub use self::physics::{MovementSystem, PhysicsSystem};
pub use self::portal::PortalTriggerSystem;
