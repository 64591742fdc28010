//! The entities that a world is built from.

use vstd::prelude::*;
use crate::animations::AnimationSet;
use crate::components::{
    Active, Body, Camera, CameraTarget, Dynamic, Hero, InstanceCompat, Mob, OverworldCompat,
    Portal, Shape, Transform, Velocity,
};
use crate::ecs::Entity;
use crate::shapes::{Ball, Cuboid};
use crate::states::Instance;
use crate::vector::Vector;
use crate::world::World;

verus! {

/// The drawing depth of a camera.
pub const CAM_Z_POS: i32 = 1000;

/// The radius of a hero and of a ferris.
pub const ACTOR_RADIUS: i32 = 16000;

/// Half the width of a building.
pub const BUILDING_HALF_WIDTH: i32 = 32000;

/// Half the height of a building.
pub const BUILDING_HALF_HEIGHT: i32 = 16000;

/// The body of a hero and of a ferris: a dynamic disc.
pub open spec fn actor_body() -> Body {
    Body {
        shape: Shape::Circle { shape: Ball { radius: ACTOR_RADIUS } },
        dynamic: Dynamic::Dynamic,
    }
}

/// The body of a building: a static rectangle.
pub open spec fn building_body() -> Body {
    Body {
        shape: Shape::Box {
            shape: Cuboid {
                half_extents: Vector { x: BUILDING_HALF_WIDTH, y: BUILDING_HALF_HEIGHT },
            },
        },
        dynamic: Dynamic::Static,
    }
}

/// Build a camera following an entity.
pub fn build_camera(world: &mut World, target: Entity) -> (camera: Entity)
    requires
        old(world).next_entity < usize::MAX,
    ensures
        camera.index == old(world).next_entity,
        final(world).next_entity == camera.index + 1,
        final(world).actives.component(camera) == Some(Active),
        final(world).overworld_compats.component(camera) == Some(OverworldCompat),
        final(world).instance_compats.component(camera) == Some(InstanceCompat),
        final(world).cameras.component(camera) == Some(Camera),
        final(world).transforms.component(camera) == Some(
            Transform { translation: Vector { x: 0, y: 0 }, z: CAM_Z_POS },
        ),
        final(world).camera_targets.component(camera) == Some(CameraTarget { entity: target }),
        forall|e: Entity|
            e != camera ==> {
                &&& final(world).actives.component(e) == old(world).actives.component(e)
                &&& final(world).overworld_compats.component(e) == old(
                    world,
                ).overworld_compats.component(e)
                &&& final(world).instance_compats.component(e) == old(
                    world,
                ).instance_compats.component(e)
                &&& final(world).cameras.component(e) == old(world).cameras.component(e)
                &&& final(world).transforms.component(e) == old(world).transforms.component(e)
                &&& final(world).camera_targets.component(e) == old(
                    world,
                ).camera_targets.component(e)
            },
        *final(world) == (World {
            next_entity: final(world).next_entity,
            actives: final(world).actives,
            overworld_compats: final(world).overworld_compats,
            instance_compats: final(world).instance_compats,
            cameras: final(world).cameras,
            transforms: final(world).transforms,
            camera_targets: final(world).camera_targets,
            ..*old(world)
        }),
{
    let camera = world.create_entity();
    world.actives.insert(camera, Active);
    world.overworld_compats.insert(camera, OverworldCompat);
    world.instance_compats.insert(camera, InstanceCompat);
    world.cameras.insert(camera, Camera);
    world.transforms.insert(camera, Transform::at(0, 0, CAM_Z_POS));
    world.camera_targets.insert(camera, CameraTarget { entity: target });
    camera
}

/// Build the hero.
pub fn build_hero(animations: AnimationSet, world: &mut World) -> (hero: Entity)
    requires
        old(world).next_entity < usize::MAX,
    ensures
        hero.index == old(world).next_entity,
        final(world).next_entity == hero.index + 1,
        final(world).actives.component(hero) == Some(Active),
        final(world).overworld_compats.component(hero) == Some(OverworldCompat),
        final(world).instance_compats.component(hero) == Some(InstanceCompat),
        final(world).heroes.component(hero) == Some(Hero { current_animation_id: None }),
        final(world).animations.component(hero) == Some(animations),
        final(world).transforms.component(hero) == Some(
            Transform { translation: Vector { x: 0, y: 0 }, z: 0 },
        ),
        final(world).velocities.component(hero) == Some(Velocity::resting()),
        final(world).bodies.component(hero) == Some(actor_body()),
        forall|e: Entity|
            e != hero ==> {
                &&& final(world).actives.component(e) == old(world).actives.component(e)
                &&& final(world).overworld_compats.component(e) == old(
                    world,
                ).overworld_compats.component(e)
                &&& final(world).instance_compats.component(e) == old(
                    world,
                ).instance_compats.component(e)
                &&& final(world).heroes.component(e) == old(world).heroes.component(e)
                &&& final(world).animations.component(e) == old(world).animations.component(e)
                &&& final(world).transforms.component(e) == old(world).transforms.component(e)
                &&& final(world).velocities.component(e) == old(world).velocities.component(e)
                &&& final(world).bodies.component(e) == old(world).bodies.component(e)
            },
        *final(world) == (World {
            next_entity: final(world).next_entity,
            actives: final(world).actives,
            overworld_compats: final(world).overworld_compats,
            instance_compats: final(world).instance_compats,
            heroes: final(world).heroes,
            animations: final(world).animations,
            transforms: final(world).transforms,
            velocities: final(world).velocities,
            bodies: final(world).bodies,
            ..*old(world)
        }),
{
    let hero = world.create_entity();
    world.actives.insert(hero, Active);
    world.overworld_compats.insert(hero, OverworldCompat);
    world.instance_compats.insert(hero, InstanceCompat);
    world.heroes.insert(hero, Hero::new());
    world.animations.insert(hero, animations);
    world.transforms.insert(hero, Transform::new());
    world.velocities.insert(hero, Velocity::new());
    world.bodies.insert(
        hero,
        Body {
            shape: Shape::Circle { shape: Ball::new(ACTOR_RADIUS) },
            dynamic: Dynamic::Dynamic,
        },
    );
    hero
}

/// Build a ferris at a given position.
pub fn build_ferris(x: i32, y: i32, reset_threshold: i32, target_threshold: i32, world: &mut World)
    requires
        old(world).next_entity < usize::MAX,
    ensures
        final(world).next_entity == old(world).next_entity + 1,
        ({
            let ferris = Entity { index: old(world).next_entity };
            &&& final(world).actives.component(ferris) == Some(Active)
            &&& final(world).overworld_compats.component(ferris) == Some(OverworldCompat)
            &&& final(world).mobs.component(ferris) == Some(
                Mob {
                    spawn: (x, y),
                    squared_reset_threshold: (reset_threshold * reset_threshold) as i64,
                    resetting: false,
                    target: None,
                    squared_target_threshold: (target_threshold * target_threshold) as i64,
                },
            )
            &&& final(world).transforms.component(ferris) == Some(
                Transform { translation: Vector { x, y }, z: 0 },
            )
            &&& final(world).velocities.component(ferris) == Some(Velocity::resting())
            &&& final(world).bodies.component(ferris) == Some(actor_body())
            &&& forall|e: Entity|
                e != ferris ==> {
                    &&& final(world).actives.component(e) == old(world).actives.component(e)
                    &&& final(world).overworld_compats.component(e) == old(
                        world,
                    ).overworld_compats.component(e)
                    &&& final(world).mobs.component(e) == old(world).mobs.component(e)
                    &&& final(world).transforms.component(e) == old(world).transforms.component(
                        e,
                    )
                    &&& final(world).velocities.component(e) == old(world).velocities.component(
                        e,
                    )
                    &&& final(world).bodies.component(e) == old(world).bodies.component(e)
                }
        }),
        *final(world) == (World {
            next_entity: final(world).next_entity,
            actives: final(world).actives,
            overworld_compats: final(world).overworld_compats,
            mobs: final(world).mobs,
            transforms: final(world).transforms,
            velocities: final(world).velocities,
            bodies: final(world).bodies,
            ..*old(world)
        }),
{
    let ferris = world.create_entity();
    world.actives.insert(ferris, Active);
    world.overworld_compats.insert(ferris, OverworldCompat);
    world.mobs.insert(ferris, Mob::new(x, y, reset_threshold, target_threshold));
    world.transforms.insert(ferris, Transform::at(x, y, 0));
    world.velocities.insert(ferris, Velocity::new());
    world.bodies.insert(
        ferris,
        Body {
            shape: Shape::Circle { shape: Ball::new(ACTOR_RADIUS) },
            dynamic: Dynamic::Dynamic,
        },
    );
}

/// Build a building.
/// This is a static physical entity.
pub fn build_building(x: i32, y: i32, world: &mut World)
    requires
        old(world).next_entity < usize::MAX,
    ensures
        final(world).next_entity == old(world).next_entity + 1,
        ({
            let building = Entity { index: old(world).next_entity };
            &&& final(world).actives.component(building) == Some(Active)
            &&& final(world).overworld_compats.component(building) == Some(OverworldCompat)
            &&& final(world).transforms.component(building) == Some(
                Transform { translation: Vector { x, y }, z: 0 },
            )
            &&& final(world).bodies.component(building) == Some(building_body())
            &&& forall|e: Entity|
                e != building ==> {
                    &&& final(world).actives.component(e) == old(world).actives.component(e)
                    &&& final(world).overworld_compats.component(e) == old(
                        world,
                    ).overworld_compats.component(e)
                    &&& final(world).transforms.component(e) == old(world).transforms.component(
                        e,
                    )
                    &&& final(world).bodies.component(e) == old(world).bodies.component(e)
                }
        }),
        *final(world) == (World {
            next_entity: final(world).next_entity,
            actives: final(world).actives,
            overworld_compats: final(world).overworld_compats,
            transforms: final(world).transforms,
            bodies: final(world).bodies,
            ..*old(world)
        }),
{
    let building = world.create_entity();
    world.actives.insert(building, Active);
    world.overworld_compats.insert(building, OverworldCompat);
    world.transforms.insert(building, Transform::at(x, y, 0));
    world.bodies.insert(
        building,
        Body {
            shape: Shape::Box {
                shape: Cuboid::new(Vector::new(BUILDING_HALF_WIDTH, BUILDING_HALF_HEIGHT)),
            },
            dynamic: Dynamic::Static,
        },
    );
}

/// Build a portal.
/// When triggered a portal will bring the player into the pointed instance.
pub fn build_portal(x: i32, y: i32, instance: Instance, trigger_zone: Cuboid, world: &mut World)
    requires
        old(world).next_entity < usize::MAX,
    ensures
        final(world).next_entity == old(world).next_entity + 1,
        ({
            let portal = Entity { index: old(world).next_entity };
            &&& final(world).actives.component(portal) == Some(Active)
            &&& final(world).overworld_compats.component(portal) == Some(OverworldCompat)
            &&& final(world).transforms.component(portal) == Some(
                Transform { translation: Vector { x, y }, z: 0 },
            )
            &&& final(world).portals.component(portal) == Some(Portal { instance, trigger_zone })
            &&& forall|e: Entity|
                e != portal ==> {
                    &&& final(world).actives.component(e) == old(world).actives.component(e)
                    &&& final(world).overworld_compats.component(e) == old(
                        world,
                    ).overworld_compats.component(e)
                    &&& final(world).transforms.component(e) == old(world).transforms.component(
                        e,
                    )
                    &&& final(world).portals.component(e) == old(world).portals.component(e)
                }
        }),
        *final(world) == (World {
            next_entity: final(world).next_entity,
            actives: final(world).actives,
            overworld_compats: final(world).overworld_compats,
            transforms: final(world).transforms,
            portals: final(world).portals,
            ..*old(world)
        }),
{
    let portal = world.create_entity();
    world.actives.insert(portal, Active);
    world.overworld_compats.insert(portal, OverworldCompat);
    world.transforms.insert(portal, Transform::at(x, y, 0));
    world.portals.insert(portal, Portal { instance, trigger_zone });
}

} // verus!
