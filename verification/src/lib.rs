//! Simulation core of a top-down 2D game, in fixed-point arithmetic.
//!
//! Lengths and coordinates are integers counted in thousandths of a world
//! unit (see [`math::SCALE`]); every rule of the simulation is stated over
//! those integers and proved.

pub mod animations;
pub mod bundle;
pub mod collision;
pub mod components;
pub mod dispatcher;
pub mod ecs;
pub mod entities;
pub mod math;
pub mod resources;
pub mod shapes;
pub mod states;
pub mod systems;
pub mod vector;
pub mod world;
