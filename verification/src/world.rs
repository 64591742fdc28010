//! The component store: every storage and every global value of the
//! simulation, in one place.

use vstd::prelude::*;
use crate::animations::{AnimationControlSet, AnimationSet};
use crate::components::{
    Active, Body, Camera, CameraTarget, CollisionMarker, Hero, InstanceCompat, Mob,
    OverworldCompat, Portal, Transform, Velocity,
};
use crate::ecs::{Entity, Storage};
use crate::resources::{Input, WorldBounds};
use crate::states::GameState;

verus! {

/// All entities with their components, and the global values that systems
/// read and write.
pub struct World {
    /// The index that the next entity gets.
    pub next_entity: usize,
    pub transforms: Storage<Transform>,
    pub velocities: Storage<Velocity>,
    pub bodies: Storage<Body>,
    pub collisions: Storage<CollisionMarker>,
    pub mobs: Storage<Mob>,
    pub heroes: Storage<Hero>,
    pub cameras: Storage<Camera>,
    pub camera_targets: Storage<CameraTarget>,
    pub portals: Storage<Portal>,
    pub actives: Storage<Active>,
    pub overworld_compats: Storage<OverworldCompat>,
    pub instance_compats: Storage<InstanceCompat>,
    pub animations: Storage<AnimationSet>,
    pub animation_controls: Storage<AnimationControlSet>,
    /// Where moving entities are kept; `None` leaves them free.
    pub bounds: Option<WorldBounds>,
    /// The state that the game is in, or is asked to go to.
    pub game_state: GameState,
    /// What the input devices read at the start of this tick.
    pub input: Input,
}

impl World {
    /// A world without entities, unbounded, in the overworld at the origin,
    /// with idle input.
    pub fn new() -> (world: World)
        ensures
            world.next_entity == 0,
            world.bounds.is_none(),
            world.game_state == GameState::Overworld((0i32, 0i32)),
            world.input == (Input { right_left: 0, up_down: 0, interact: false, escape: false }),
            forall|e: Entity|
                {
                    &&& !world.transforms.has(e)
                    &&& !world.velocities.has(e)
                    &&& !world.bodies.has(e)
                    &&& !world.collisions.has(e)
                    &&& !world.mobs.has(e)
                    &&& !world.heroes.has(e)
                    &&& !world.cameras.has(e)
                    &&& !world.camera_targets.has(e)
                    &&& !world.portals.has(e)
                    &&& !world.actives.has(e)
                    &&& !world.overworld_compats.has(e)
                    &&& !world.instance_compats.has(e)
                    &&& !world.animations.has(e)
                    &&& !world.animation_controls.has(e)
                },
    {
        World {
            next_entity: 0,
            transforms: Storage::new(),
            velocities: Storage::new(),
            bodies: Storage::new(),
            collisions: Storage::new(),
            mobs: Storage::new(),
            heroes: Storage::new(),
            cameras: Storage::new(),
            camera_targets: Storage::new(),
            portals: Storage::new(),
            actives: Storage::new(),
            overworld_compats: Storage::new(),
            instance_compats: Storage::new(),
            animations: Storage::new(),
            animation_controls: Storage::new(),
            bounds: None,
            game_state: GameState::Overworld((0, 0)),
            input: Input::new(),
        }
    }

    /// Whether `entity` carries the same components in this world and in
    /// `other`.
    pub open spec fn same_components(self, other: World, entity: Entity) -> bool {
        &&& self.transforms.component(entity) == other.transforms.component(entity)
        &&& self.velocities.component(entity) == other.velocities.component(entity)
        &&& self.bodies.component(entity) == other.bodies.component(entity)
        &&& self.collisions.component(entity) == other.collisions.component(entity)
        &&& self.mobs.component(entity) == other.mobs.component(entity)
        &&& self.heroes.component(entity) == other.heroes.component(entity)
        &&& self.cameras.component(entity) == other.cameras.component(entity)
        &&& self.camera_targets.component(entity) == other.camera_targets.component(entity)
        &&& self.portals.component(entity) == other.portals.component(entity)
        &&& self.actives.component(entity) == other.actives.component(entity)
        &&& self.overworld_compats.component(entity) == other.overworld_compats.component(
            entity,
        )
        &&& self.instance_compats.component(entity) == other.instance_compats.component(entity)
        &&& self.animations.component(entity) == other.animations.component(entity)
        &&& self.animation_controls.component(entity) == other.animation_controls.component(
            entity,
        )
    }

    /// Hands out an entity that no call on this world has handed out before.
    pub fn create_entity(&mut self) -> (entity: Entity)
        requires
            old(self).next_entity < usize::MAX,
        ensures
            entity.index == old(self).next_entity,
            *final(self) == (World { next_entity: (entity.index + 1) as usize, ..*old(self) }),
    {
        let entity = Entity { index: self.next_entity };
        self.next_entity = self.next_entity + 1;
        entity
    }
}

} // verus!
