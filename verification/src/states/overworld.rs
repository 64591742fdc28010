use vstd::prelude::*;
use crate::animations::AnimationSet;
use crate::components::{CameraTarget, Hero, Portal, Transform};
use crate::dispatcher::{runs, Dispatcher};
use crate::ecs::Entity;
use crate::entities::{
    actor_body, build_building, build_camera, build_hero, build_portal, building_body, CAM_Z_POS,
};
use crate::resources::WorldBounds;
use crate::shapes::Cuboid;
use crate::states::{placed, standing_at, GameState, Instance, InstanceState, StateError, Trans};
use crate::vector::Vector;
use crate::world::World;

verus! {

/// The open world that the game starts in.
#[derive(PartialEq, Eq, Copy, Clone, Debug)]
pub struct OverworldState {
    /// The animations that the hero is built with; taken when the state
    /// starts.
    pub hero_animations: Option<AnimationSet>,
    pub hero: Option<Entity>,
    pub camera: Option<Entity>,
    /// Where the hero stood when the overworld was last suspended.
    pub paused_hero: Option<Transform>,
}

/// The bounds of the overworld: a square of ten thousand units around the
/// origin.
pub open spec fn overworld_bounds() -> WorldBounds {
    WorldBounds { left: -5000000i32, right: 5000000, bottom: -5000000i32, top: 5000000 }
}

/// The instance behind the portal of the overworld.
pub open spec fn house() -> Instance {
    Instance {
        spawn: (1000000i32, 1000000i32),
        bounds: WorldBounds { left: 975000, right: 1025000, bottom: 975000, top: 1025000 },
        exit: (100000i32, 76000i32),
    }
}

/// The portal of the overworld.
pub open spec fn house_portal() -> Portal {
    Portal {
        instance: house(),
        trigger_zone: Cuboid { half_extents: Vector { x: 16000, y: 16000 } },
    }
}

impl OverworldState {
    /// An overworld that has not started, with the animations for its
    /// hero.
    pub fn new(hero_animations: AnimationSet) -> (state: Self)
        ensures
            state == (OverworldState {
                hero_animations: Some(hero_animations),
                hero: None,
                camera: None,
                paused_hero: None,
            }),
    {
        OverworldState {
            hero_animations: Some(hero_animations),
            hero: None,
            camera: None,
            paused_hero: None,
        }
    }

    /// The bounds of the overworld.
    pub fn build_overworld_bounds() -> (bounds: WorldBounds)
        ensures
            bounds == overworld_bounds(),
    {
        WorldBounds::new_around_origin(10000000, 10000000)
    }

    /// What starting the overworld does to the world: the bounds of the
    /// overworld are in force, and four new entities stand in it, the hero,
    /// a camera that follows the hero, a building and a portal next to it.
    /// Every other entity is as it was.
    pub open spec fn built(animations: AnimationSet, before: World, after: World) -> bool {
        let hero = Entity { index: before.next_entity };
        let camera = Entity { index: (before.next_entity + 1) as usize };
        let building = Entity { index: (before.next_entity + 2) as usize };
        let portal = Entity { index: (before.next_entity + 3) as usize };
        &&& after.next_entity == before.next_entity + 4
        &&& after.bounds == Some(overworld_bounds())
        &&& after.game_state == before.game_state
        &&& after.input == before.input
        &&& after.heroes.component(hero) == Some(Hero { current_animation_id: None })
        &&& after.animations.component(hero) == Some(animations)
        &&& after.transforms.component(hero) == Some(standing_at((0i32, 0i32), 0))
        &&& after.bodies.component(hero) == Some(actor_body())
        &&& after.actives.has(hero)
        &&& after.cameras.has(camera)
        &&& after.camera_targets.component(camera) == Some(CameraTarget { entity: hero })
        &&& after.transforms.component(camera) == Some(standing_at((0i32, 0i32), CAM_Z_POS))
        &&& after.actives.has(camera)
        &&& after.transforms.component(building) == Some(standing_at((100000i32, 100000i32), 0))
        &&& after.bodies.component(building) == Some(building_body())
        &&& after.actives.has(building)
        &&& after.transforms.component(portal) == Some(standing_at((100000i32, 76000i32), 0))
        &&& after.portals.component(portal) == Some(house_portal())
        &&& after.actives.has(portal)
        &&& forall|e: Entity|
            e.index < before.next_entity || e.index >= before.next_entity + 4
                ==> #[trigger] after.same_components(before, e)
    }

    /// Starts the overworld: sets its bounds and builds its entities.
    pub fn on_start(&mut self, world: &mut World)
        requires
            old(self).hero_animations.is_some(),
            old(world).next_entity <= usize::MAX - 4,
        ensures
            Self::built(old(self).hero_animations.unwrap(), *old(world), *final(world)),
            *final(self) == (OverworldState {
                hero_animations: None,
                hero: Some(Entity { index: old(world).next_entity }),
                camera: Some(Entity { index: (old(world).next_entity + 1) as usize }),
                paused_hero: old(self).paused_hero,
            }),
    {
        world.bounds = Some(Self::build_overworld_bounds());

        let animations = match self.hero_animations {
            Some(animations) => animations,
            None => {
                return ;
            },
        };
        self.hero_animations = None;
        let hero = build_hero(animations, world);
        let camera = build_camera(world, hero);
        build_building(100000, 100000, world);
        build_portal(
            100000,
            76000,
            Instance {
                spawn: (1000000, 1000000),
                bounds: WorldBounds::new(975000, 1025000, 975000, 1025000),
                exit: (100000, 76000),
            },
            Cuboid::new(Vector::new(16000, 16000)),
            world,
        );

        self.hero = Some(hero);
        self.camera = Some(camera);
    }

    /// What the overworld asks of the state stack when the game is in
    /// `state`: to enter the instance that is asked for, with its own hero
    /// and camera. An overworld that has not started has neither and asks
    /// for nothing.
    pub open spec fn observed(self, state: GameState) -> Trans {
        match (state, self.hero, self.camera) {
            (GameState::Instance(instance), Some(hero), Some(camera)) => Trans::Push(
                InstanceState { instance, hero, camera },
            ),
            _ => Trans::Nothing,
        }
    }

    /// Runs one tick of the systems, and then asks for the instance if the
    /// game is to enter one.
    pub fn update(&mut self, dispatcher: &Dispatcher, world: &mut World) -> (trans: Trans)
        ensures
            *final(self) == *old(self),
            runs(dispatcher.order@, *old(world), *final(world)),
            trans == old(self).observed(final(world).game_state),
    {
        dispatcher.tick(world);
        match (world.game_state, self.hero, self.camera) {
            (GameState::Instance(instance), Some(hero), Some(camera)) => Trans::Push(
                InstanceState::new(instance, hero, camera),
            ),
            _ => Trans::Nothing,
        }
    }

    /// The transform of the hero in `world`, if the overworld has a hero
    /// and the hero has a transform.
    pub open spec fn hero_transform(self, world: World) -> Option<Transform> {
        match self.hero {
            Some(hero) => world.transforms.component(hero),
            None => None,
        }
    }

    /// Suspends the overworld: remembers where the hero stands.
    pub fn on_pause(&mut self, world: &World)
        ensures
            *final(self) == (OverworldState {
                paused_hero: old(self).hero_transform(*world),
                ..*old(self)
            }),
    {
        self.paused_hero = match self.hero {
            Some(hero) => world.transforms.get(hero),
            None => None,
        };
    }

    /// What resuming the overworld does to the world when the game is sent
    /// back to `position`: the bounds of the overworld are in force again,
    /// and hero and camera stand at `position`.
    pub open spec fn resumed(self, before: World, after: World, position: (i32, i32)) -> bool {
        &&& placed(before, after, self.hero, self.camera, position)
        &&& after.bounds == Some(overworld_bounds())
        &&& after == (World { transforms: after.transforms, bounds: after.bounds, ..before })
    }

    /// Resumes the overworld after an instance: restores the bounds of the
    /// overworld and puts hero and camera at the position that the game
    /// state carries.
    ///
    /// Resuming while the game state still asks for an instance is an error
    /// of the caller; the world is then left as it is.
    pub fn on_resume(&mut self, world: &mut World) -> (result: Result<(), StateError>)
        ensures
            *final(self) == *old(self),
            match old(world).game_state {
                GameState::Overworld(position) => result.is_ok() && old(self).resumed(
                    *old(world),
                    *final(world),
                    position,
                ),
                GameState::Instance(_) => result == Err::<(), StateError>(
                    StateError::NotOverworld,
                ) && *final(world) == *old(world),
            },
    {
        match world.game_state {
            GameState::Overworld((x, y)) => {
                // Restore overworld's boundaries
                world.bounds = Some(Self::build_overworld_bounds());

                // Put hero back to the position it was before state switch.
                // Point camera on hero.
                match self.hero {
                    Some(hero) => {
                        world.transforms.insert(hero, Transform::at(x, y, 0));
                    },
                    None => {},
                }
                match self.camera {
                    Some(camera) => {
                        world.transforms.insert(camera, Transform::at(x, y, CAM_Z_POS));
                    },
                    None => {},
                }
                Ok(())
            },
            GameState::Instance(_) => Err(StateError::NotOverworld),
        }
    }
}

} // verus!
