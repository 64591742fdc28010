use vstd::prelude::*;
use crate::components::Transform;
use crate::dispatcher::{runs, Dispatcher};
use crate::ecs::Entity;
use crate::entities::CAM_Z_POS;
use crate::resources::WorldBounds;
use crate::states::{GameState, Trans};
use crate::vector::Vector;
use crate::world::World;

verus! {

/// Instance data.
#[derive(PartialEq, Eq, Copy, Clone, Debug)]
pub struct Instance {
    /// The position the hero will spawn when entering.
    pub spawn: (i32, i32),
    /// The boundaries of the instance.
    pub bounds: WorldBounds,
    /// The position in the overworld the hero will end up when exiting the instance.
    pub exit: (i32, i32),
}

/// State active when inside an instance (building/dungeon).
#[derive(PartialEq, Eq, Copy, Clone, Debug)]
pub struct InstanceState {
    pub instance: Instance,
    pub hero: Entity,
    pub camera: Entity,
}

/// The transform of an entity that stands at `position`, drawn at depth
/// `z`.
pub open spec fn standing_at(position: (i32, i32), z: i32) -> Transform {
    Transform { translation: Vector { x: position.0, y: position.1 }, z }
}

/// Whether `after` is `before` with the hero put at `position` and the
/// camera put above it, each only if it is there, and every other transform
/// untouched. Where hero and camera are one entity, it is placed as the
/// camera.
pub open spec fn placed(
    before: World,
    after: World,
    hero: Option<Entity>,
    camera: Option<Entity>,
    position: (i32, i32),
) -> bool {
    forall|e: Entity|
        #[trigger] after.transforms.component(e) == if camera == Some(e) {
            Some(standing_at(position, CAM_Z_POS))
        } else if hero == Some(e) {
            Some(standing_at(position, 0))
        } else {
            before.transforms.component(e)
        }
}

impl InstanceState {
    /// Build a new instance state from an `Instance`.
    pub fn new(instance: Instance, hero: Entity, camera: Entity) -> (state: Self)
        ensures
            state == (InstanceState { instance, hero, camera }),
    {
        InstanceState { instance, hero, camera }
    }

    /// The transform of the hero at the spawn point of the instance.
    pub fn build_transform_from_spawn(&self) -> (transform: Transform)
        ensures
            transform == standing_at(self.instance.spawn, 0),
    {
        Transform::at(self.instance.spawn.0, self.instance.spawn.1, 0)
    }

    /// What entering the instance does to the world: hero and camera stand
    /// at the spawn point, and the bounds of the instance are in force.
    pub open spec fn entered(self, before: World, after: World) -> bool {
        &&& placed(before, after, Some(self.hero), Some(self.camera), self.instance.spawn)
        &&& after.bounds == Some(self.instance.bounds)
        &&& after == (World { transforms: after.transforms, bounds: after.bounds, ..before })
    }

    /// Enters the instance: puts hero and camera at the spawn point and
    /// replaces the bounds of the world by those of the instance.
    pub fn on_start(&mut self, world: &mut World)
        ensures
            *final(self) == *old(self),
            old(self).entered(*old(world), *final(world)),
    {
        // set up hero and camera position
        let hero_transform = self.build_transform_from_spawn();
        let cam_trans = Transform { translation: hero_transform.translation, z: CAM_Z_POS };
        world.transforms.insert(self.hero, hero_transform);
        world.transforms.insert(self.camera, cam_trans);

        // set up world boundaries
        world.bounds = Some(self.instance.bounds);
    }

    /// Leaves the instance. Nothing belongs to the instance alone, so
    /// nothing is removed.
    pub fn on_stop(&mut self, world: &mut World)
        ensures
            *final(self) == *old(self),
            *final(world) == *old(world),
    {
    }

    /// What the instance asks of the state stack when the game is in
    /// `state`: to go back once the overworld is asked for.
    pub open spec fn observed(state: GameState) -> Trans {
        match state {
            GameState::Overworld(_) => Trans::Pop,
            GameState::Instance(_) => Trans::Nothing,
        }
    }

    /// Runs one tick of the systems, and then asks to be left if the game
    /// is to go back to the overworld.
    pub fn update(&mut self, dispatcher: &Dispatcher, world: &mut World) -> (trans: Trans)
        ensures
            *final(self) == *old(self),
            runs(dispatcher.order@, *old(world), *final(world)),
            trans == Self::observed(final(world).game_state),
    {
        dispatcher.tick(world);
        match world.game_state {
            GameState::Overworld(_) => Trans::Pop,
            GameState::Instance(_) => Trans::Nothing,
        }
    }

    /// The world after the instance has seen the input: with escape held,
    /// the game is asked to go back to the overworld, to the exit of the
    /// instance.
    pub open spec fn escaped(self, world: World) -> World {
        if world.input.escape {
            World { game_state: GameState::Overworld(self.instance.exit), ..world }
        } else {
            world
        }
    }

    /// Reacts to the escape key: while it is held, asks for the overworld at
    /// the exit of this instance.
    pub fn handle_event(&mut self, world: &mut World) -> (trans: Trans)
        ensures
            *final(self) == *old(self),
            *final(world) == old(self).escaped(*old(world)),
            trans == Trans::Nothing,
    {
        if world.input.escape {
            world.game_state = GameState::Overworld(self.instance.exit);
        }
        Trans::Nothing
    }
}

} // verus!
