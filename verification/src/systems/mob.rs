use vstd::prelude::*;
use crate::components::{Active, Hero, Mob, Transform, Velocity};
use crate::ecs::{Entity, Storage};
use crate::vector::{unit_of, Vector};
use crate::world::World;

verus! {

/// The speed of a mob that chases or goes home.
pub const MOB_SPEED: i32 = 800;

/// The squared distance from its spawn point within which a mob has arrived
/// home.
pub const SQUARED_ARRIVAL_DISTANCE: i64 = 1000000;

/// Whether `hero` is an active hero with a position that lies closer to
/// `position` than the threshold.
pub open spec fn in_reach(
    heroes: Storage<Hero>,
    transforms: Storage<Transform>,
    actives: Storage<Active>,
    position: Vector,
    squared_threshold: i64,
    hero: Entity,
) -> bool {
    &&& heroes.has(hero)
    &&& transforms.has(hero)
    &&& actives.has(hero)
    &&& position.distance_squared_to(transforms.component(hero).unwrap().translation)
        < squared_threshold
}

/// The last of the entities below index `n` that is in reach.
pub open spec fn last_in_reach(
    heroes: Storage<Hero>,
    transforms: Storage<Transform>,
    actives: Storage<Active>,
    position: Vector,
    squared_threshold: i64,
    n: nat,
) -> Option<Entity>
    decreases n,
{
    if n == 0 {
        None
    } else {
        let hero = Entity { index: (n - 1) as usize };
        if in_reach(heroes, transforms, actives, position, squared_threshold, hero) {
            Some(hero)
        } else {
            last_in_reach(heroes, transforms, actives, position, squared_threshold, (n - 1) as nat)
        }
    }
}

/// The mob that target acquisition leaves on an entity. A mob that is
/// active, has a position and is not on its way home takes the last hero in
/// reach as its target, and keeps its target where no hero is in reach.
/// Every other mob stays as it is.
pub open spec fn acquired(world: World, entity: Entity) -> Option<Mob> {
    match world.mobs.component(entity) {
        Some(mob) => if world.transforms.has(entity) && world.actives.has(entity)
            && !mob.resetting {
            match last_in_reach(
                world.heroes,
                world.transforms,
                world.actives,
                world.transforms.component(entity).unwrap().translation,
                mob.squared_target_threshold,
                world.heroes.span() as nat,
            ) {
                Some(hero) => Some(Mob { target: Some(hero), ..mob }),
                None => Some(mob),
            }
        } else {
            Some(mob)
        },
        None => None,
    }
}

/// Finds the last hero in reach of `position`.
fn find_target(
    heroes: &Storage<Hero>,
    transforms: &Storage<Transform>,
    actives: &Storage<Active>,
    position: &Vector,
    squared_threshold: i64,
) -> (found: Option<Entity>)
    ensures
        found == last_in_reach(
            *heroes,
            *transforms,
            *actives,
            *position,
            squared_threshold,
            heroes.span() as nat,
        ),
{
    let n: usize = heroes.len();
    let mut found: Option<Entity> = None;
    let mut i: usize = 0;
    while i < n
        invariant
            i <= n,
            n as int == heroes.span(),
            found == last_in_reach(
                *heroes,
                *transforms,
                *actives,
                *position,
                squared_threshold,
                i as nat,
            ),
        decreases n - i,
    {
        let entity = Entity { index: i };
        if heroes.contains(entity) && actives.contains(entity) {
            match transforms.get(entity) {
                Some(h_transform) => {
                    // check target theshold
                    let squared_distance = position.distance_squared(&h_transform.translation);
                    if (squared_distance as i128) < squared_threshold as i128 {
                        found = Some(entity);
                    }
                },
                None => {},
            }
        }
        i = i + 1;
    }
    found
}

/// Acquire close target.
pub struct MobTargetSystem;

impl MobTargetSystem {
    /// Gives every active mob that is not on its way home the last hero in
    /// its reach as target.
    pub fn run(&mut self, world: &mut World)
        ensures
            forall|e: Entity| final(world).mobs.component(e) == acquired(*old(world), e),
            final(world).mobs.span() == old(world).mobs.span(),
            *final(world) == (World { mobs: final(world).mobs, ..*old(world) }),
    {
        let n: usize = world.mobs.len();
        let mut i: usize = 0;
        while i < n
            invariant
                i <= n,
                n as int == world.mobs.span(),
                world.mobs.span() == old(world).mobs.span(),
                *world == (World { mobs: world.mobs, ..*old(world) }),
                forall|e: Entity|
                    e.index < i ==> world.mobs.component(e) == acquired(*old(world), e),
                forall|e: Entity|
                    e.index >= i ==> world.mobs.component(e) == old(world).mobs.component(e),
            decreases n - i,
        {
            let entity = Entity { index: i };
            match (world.mobs.get(entity), world.transforms.get(entity)) {
                (Some(mob), Some(m_transform)) => {
                    if world.actives.contains(entity) && !mob.resetting {
                        let found = find_target(
                            &world.heroes,
                            &world.transforms,
                            &world.actives,
                            &m_transform.translation,
                            mob.squared_target_threshold,
                        );
                        match found {
                            Some(hero) => {
                                world.mobs.insert(entity, Mob { target: Some(hero), ..mob });
                            },
                            None => {},
                        }
                    }
                },
                _ => {},
            }
            i = i + 1;
        }
    }
}

/// The position of the entity that `mob` chases, if it chases one that is
/// active and has a position.
pub open spec fn pursued_position(
    mob: Mob,
    transforms: Storage<Transform>,
    actives: Storage<Active>,
) -> Option<Vector> {
    match mob.target {
        Some(target) => if actives.has(target) && transforms.has(target) {
            Some(transforms.component(target).unwrap().translation)
        } else {
            None
        },
        None => None,
    }
}

/// The velocity that carries an entity from `from` towards `to` at the speed
/// of a mob.
pub open spec fn heading(from: Vector, to: Vector) -> Velocity {
    Velocity {
        direction: Vector {
            x: unit_of(to.x - from.x, to.y - from.y).0 as i32,
            y: unit_of(to.x - from.x, to.y - from.y).1 as i32,
        },
        speed: MOB_SPEED,
    }
}

/// The spawn point of `mob` as a position.
pub open spec fn spawn_of(mob: Mob) -> Vector {
    Vector { x: mob.spawn.0, y: mob.spawn.1 }
}

/// Whether a mob at `position` has strayed beyond its reset threshold.
pub open spec fn strayed(mob: Mob, position: Vector) -> bool {
    position.distance_squared_to(spawn_of(mob)) > mob.squared_reset_threshold
}

/// Whether a mob at `position` is further from home than the arrival
/// distance.
pub open spec fn away(mob: Mob, position: Vector) -> bool {
    position.distance_squared_to(spawn_of(mob)) > SQUARED_ARRIVAL_DISTANCE
}

/// The mob after one step at `position`. A mob that has strayed drops its
/// target and turns home; a mob on its way home stays so until it has
/// arrived.
pub open spec fn stepped_mob(mob: Mob, position: Vector) -> Mob {
    Mob {
        target: if strayed(mob, position) {
            None
        } else {
            mob.target
        },
        resetting: (mob.resetting || strayed(mob, position)) && away(mob, position),
        ..mob
    }
}

/// The velocity of a mob after one step at `position`, where `pursued` is
/// the position of what it chases. On its way home and not yet arrived, the
/// mob heads for its spawn point; otherwise it heads for what it chases, or
/// rests if it chases nothing.
pub open spec fn stepped_velocity(mob: Mob, position: Vector, pursued: Option<Vector>) -> Velocity {
    if (mob.resetting || strayed(mob, position)) && away(mob, position) {
        heading(position, spawn_of(mob))
    } else {
        match pursued {
            Some(target) => heading(position, target),
            None => Velocity::resting(),
        }
    }
}

/// Decides what a mob at `position` does in this tick, where `pursued` is the
/// position of what it chases: the mob's new state and its velocity.
pub fn step_mob(mob: Mob, position: Vector, pursued: Option<Vector>) -> (next: (Mob, Velocity))
    ensures
        next.0 == stepped_mob(mob, position),
        next.1 == stepped_velocity(mob, position, pursued),
        mob.consistent() ==> next.0.consistent(),
{
    let mut mob = mob;
    //Reset velocity
    let mut velocity = Velocity::new();

    // Go toward target
    match pursued {
        Some(target_position) => {
            velocity.direction = position.direction_to(&target_position);
            velocity.speed = MOB_SPEED;
        },
        None => {},
    }

    // Check if should reset or stop resetting
    let spawn = Vector::new(mob.spawn.0, mob.spawn.1);
    let squared_distance = position.distance_squared(&spawn);
    if squared_distance as i128 > mob.squared_reset_threshold as i128 {
        mob.target = None;
        mob.resetting = true;
    }

    // If resetting, go toward spawn and stop when close
    if mob.resetting && squared_distance as i128 > SQUARED_ARRIVAL_DISTANCE as i128 {
        velocity.direction = position.direction_to(&spawn);
        velocity.speed = MOB_SPEED;
    } else if mob.resetting {
        mob.resetting = false;
    }
    (mob, velocity)
}

/// Whether the mob movement system handles `entity`: an active mob with a
/// position and a velocity.
pub open spec fn moves(world: World, entity: Entity) -> bool {
    &&& world.mobs.has(entity)
    &&& world.transforms.has(entity)
    &&& world.velocities.has(entity)
    &&& world.actives.has(entity)
}

/// The mob that the movement of mobs leaves on an entity.
pub open spec fn moved_mob(world: World, entity: Entity) -> Option<Mob> {
    if moves(world, entity) {
        Some(
            stepped_mob(
                world.mobs.component(entity).unwrap(),
                world.transforms.component(entity).unwrap().translation,
            ),
        )
    } else {
        world.mobs.component(entity)
    }
}

/// The velocity that the movement of mobs leaves on an entity.
pub open spec fn moved_velocity(world: World, entity: Entity) -> Option<Velocity> {
    if moves(world, entity) {
        Some(
            stepped_velocity(
                world.mobs.component(entity).unwrap(),
                world.transforms.component(entity).unwrap().translation,
                pursued_position(
                    world.mobs.component(entity).unwrap(),
                    world.transforms,
                    world.actives,
                ),
            ),
        )
    } else {
        world.velocities.component(entity)
    }
}

/// Get the position of what `mob` chases, if that is active and placed.
fn get_pursued(mob: &Mob, transforms: &Storage<Transform>, actives: &Storage<Active>) -> (position:
    Option<Vector>)
    ensures
        position == pursued_position(*mob, *transforms, *actives),
{
    match mob.target {
        Some(target) => {
            if actives.contains(target) {
                match transforms.get(target) {
                    Some(transform) => Some(transform.translation),
                    None => None,
                }
            } else {
                None
            }
        },
        None => None,
    }
}

/// Handle mob movement.
/// Follow currently targetted entity.
/// Get back to spawn when too far.
pub struct MobMovementSystem;

impl MobMovementSystem {
    /// Lets every active mob with a position and a velocity decide where
    /// to go in this tick.
    pub fn run(&mut self, world: &mut World)
        ensures
            forall|e: Entity| final(world).mobs.component(e) == moved_mob(*old(world), e),
            forall|e: Entity|
                final(world).velocities.component(e) == moved_velocity(*old(world), e),
            *final(world) == (World {
                mobs: final(world).mobs,
                velocities: final(world).velocities,
                ..*old(world)
            }),
    {
        let n: usize = world.mobs.len();
        let mut i: usize = 0;
        while i < n
            invariant
                i <= n,
                n as int == world.mobs.span(),
                world.mobs.span() == old(world).mobs.span(),
                *world == (World {
                    mobs: world.mobs,
                    velocities: world.velocities,
                    ..*old(world)
                }),
                forall|e: Entity|
                    e.index < i ==> world.mobs.component(e) == moved_mob(*old(world), e),
                forall|e: Entity|
                    e.index < i ==> world.velocities.component(e) == moved_velocity(
                        *old(world),
                        e,
                    ),
                forall|e: Entity|
                    e.index >= i ==> world.mobs.component(e) == old(world).mobs.component(e),
                forall|e: Entity|
                    e.index >= i ==> world.velocities.component(e) == old(
                        world,
                    ).velocities.component(e),
            decreases n - i,
        {
            let entity = Entity { index: i };
            match (world.mobs.get(entity), world.transforms.get(entity)) {
                (Some(mob), Some(transform)) => {
                    if world.velocities.contains(entity) && world.actives.contains(entity) {
                        let pursued = get_pursued(&mob, &world.transforms, &world.actives);
                        let (next_mob, velocity) = step_mob(mob, transform.translation, pursued);
                        world.mobs.insert(entity, next_mob);
                        world.velocities.insert(entity, velocity);
                    }
                },
                _ => {},
            }
            i = i + 1;
        }
    }
}

/// Neither system of the mobs makes a mob chase while it is on its way
/// home: a mob that has no target while resetting before a run has none
/// while resetting after it.
pub proof fn lemma_mobs_stay_consistent(world: World, entity: Entity)
    requires
        world.mobs.has(entity),
        world.mobs.component(entity).unwrap().consistent(),
    ensures
        acquired(world, entity).unwrap().consistent(),
        moved_mob(world, entity).unwrap().consistent(),
{
}

} // verus!
