use vstd::prelude::*;
use crate::ecs::Entity;

verus! {

/// Marks an entity as a camera.
#[derive(PartialEq, Eq, Copy, Clone, Debug, Default, Structural)]
pub struct Camera;

/// The entity that a camera follows. The camera does not own it.
#[derive(PartialEq, Eq, Copy, Clone, Debug, Structural)]
pub struct CameraTarget {
    pub entity: Entity,
}

} // verus!
