use rustymon::components::{Active, Hero, Mob, Transform, Velocity};
use rustymon::ecs::Entity;
use rustymon::systems::mob::{step_mob, MOB_SPEED, SQUARED_ARRIVAL_DISTANCE};
use rustymon::systems::{MobMovementSystem, MobTargetSystem, MovementSystem};
use rustymon::vector::Vector;
use rustymon::world::World;

const UNIT_SQUARED: i64 = 1_000_000;

fn roaming_mob() -> Mob {
    Mob {
        spawn: (0, 0),
        squared_reset_threshold: 100 * UNIT_SQUARED,
        resetting: false,
        target: None,
        squared_target_threshold: 50 * UNIT_SQUARED,
    }
}

fn add_hero(world: &mut World, x: i32, y: i32) -> Entity {
    let hero = world.create_entity();
    world.heroes.insert(hero, Hero::new());
    world.transforms.insert(hero, Transform::at(x, y, 0));
    world.actives.insert(hero, Active);
    hero
}

fn add_mob(world: &mut World, x: i32, y: i32, mob: Mob) -> Entity {
    let entity = world.create_entity();
    world.mobs.insert(entity, mob);
    world.transforms.insert(entity, Transform::at(x, y, 0));
    world.velocities.insert(entity, Velocity::new());
    world.actives.insert(entity, Active);
    entity
}

#[test]
fn constants_of_the_mob() {
    assert_eq!(MOB_SPEED, 800);
    assert_eq!(SQUARED_ARRIVAL_DISTANCE, 1_000_000);
}

#[test]
fn new_mob_squares_its_thresholds() {
    let mob = Mob::new(3, 4, 10_000, -7_000);
    assert_eq!(mob.spawn, (3, 4));
    assert_eq!(mob.squared_reset_threshold, 100_000_000);
    assert_eq!(mob.squared_target_threshold, 49_000_000);
    assert!(!mob.resetting);
    assert_eq!(mob.target, None);
    let mob = Mob::new(0, 0, i32::MIN, i32::MAX);
    assert_eq!(mob.squared_reset_threshold, 4_611_686_018_427_387_904);
    assert_eq!(mob.squared_target_threshold, 4_611_686_014_132_420_609);
}

#[test]
fn mob_pursues_returns_and_idles() {
    let mut world = World::new();
    let hero = add_hero(&mut world, 6_000, 2_000);
    let mob = add_mob(&mut world, 0, 0, roaming_mob());

    // the hero stands at squared distance 40: it becomes the target
    MobTargetSystem.run(&mut world);
    assert_eq!(world.mobs.get(mob).unwrap().target, Some(hero));
    assert!(!world.mobs.get(mob).unwrap().resetting);

    // the mob heads for the hero
    MobMovementSystem.run(&mut world);
    assert_eq!(
        world.velocities.get(mob),
        Some(Velocity { direction: Vector::new(949, 317), speed: 800 })
    );
    assert_eq!(world.mobs.get(mob).unwrap().target, Some(hero));

    // beyond squared distance 100 from its spawn point the mob turns home
    world.transforms.insert(mob, Transform::at(11_000, 0, 0));
    MobMovementSystem.run(&mut world);
    let turned = world.mobs.get(mob).unwrap();
    assert_eq!(turned.target, None);
    assert!(turned.resetting);
    assert_eq!(
        world.velocities.get(mob),
        Some(Velocity { direction: Vector::new(-1000, 0), speed: 800 })
    );

    // on its way home the mob does not look for targets
    MobTargetSystem.run(&mut world);
    assert_eq!(world.mobs.get(mob).unwrap().target, None);

    // within squared distance 1 of its spawn point the mob has arrived
    world.transforms.insert(mob, Transform::at(500, 0, 0));
    MobMovementSystem.run(&mut world);
    let home = world.mobs.get(mob).unwrap();
    assert!(!home.resetting);
    assert_eq!(home.target, None);
    assert_eq!(world.velocities.get(mob), Some(Velocity::new()));

    // and looks for targets again
    MobTargetSystem.run(&mut world);
    assert_eq!(world.mobs.get(mob).unwrap().target, Some(hero));
}

#[test]
fn mob_walks_home_step_by_step() {
    let mut world = World::new();
    let mob = add_mob(&mut world, 10_100, 0, roaming_mob());
    MobMovementSystem.run(&mut world);
    assert!(world.mobs.get(mob).unwrap().resetting);
    let mut ticks = 0;
    while world.mobs.get(mob).unwrap().resetting {
        MovementSystem.run(&mut world);
        MobMovementSystem.run(&mut world);
        ticks += 1;
        assert!(ticks < 100);
    }
    // 10100, 9300, .., 1300, 500: twelve steps of 800
    assert_eq!(ticks, 12);
    assert_eq!(world.transforms.get(mob).unwrap().translation, Vector::new(500, 0));
    assert_eq!(world.velocities.get(mob), Some(Velocity::new()));
}

#[test]
fn hero_at_the_threshold_is_out_of_reach() {
    let mut world = World::new();
    // squared distance 49 + 1 = 50: not below the threshold
    add_hero(&mut world, 7_000, 1_000);
    let mob = add_mob(&mut world, 0, 0, roaming_mob());
    MobTargetSystem.run(&mut world);
    assert_eq!(world.mobs.get(mob).unwrap().target, None);
}

#[test]
fn the_last_hero_in_reach_becomes_the_target() {
    let mut world = World::new();
    let near = add_hero(&mut world, 1_000, 0);
    let mob = add_mob(&mut world, 0, 0, roaming_mob());
    let far = add_hero(&mut world, 0, 5_000);
    add_hero(&mut world, 90_000, 0);
    MobTargetSystem.run(&mut world);
    assert_eq!(world.mobs.get(mob).unwrap().target, Some(far));
    assert!(near != far);
}

#[test]
fn mob_keeps_its_target_when_no_hero_is_in_reach() {
    let mut world = World::new();
    let hero = add_hero(&mut world, 90_000, 0);
    let mob = add_mob(&mut world, 0, 0, Mob { target: Some(hero), ..roaming_mob() });
    MobTargetSystem.run(&mut world);
    assert_eq!(world.mobs.get(mob).unwrap().target, Some(hero));
}

#[test]
fn inactive_heroes_and_mobs_are_skipped() {
    let mut world = World::new();
    let hero = add_hero(&mut world, 1_000, 0);
    let mob = add_mob(&mut world, 0, 0, roaming_mob());
    world.actives.remove(hero);
    MobTargetSystem.run(&mut world);
    assert_eq!(world.mobs.get(mob).unwrap().target, None);

    world.actives.insert(hero, Active);
    world.actives.remove(mob);
    MobTargetSystem.run(&mut world);
    assert_eq!(world.mobs.get(mob).unwrap().target, None);
    world.velocities.insert(mob, Velocity { direction: Vector::new(1000, 0), speed: 5 });
    MobMovementSystem.run(&mut world);
    assert_eq!(
        world.velocities.get(mob),
        Some(Velocity { direction: Vector::new(1000, 0), speed: 5 })
    );
}

#[test]
fn mob_rests_when_its_target_is_inactive_or_has_no_position() {
    let mut world = World::new();
    let hero = add_hero(&mut world, 1_000, 0);
    let mob = add_mob(&mut world, 0, 0, Mob { target: Some(hero), ..roaming_mob() });
    world.velocities.insert(mob, Velocity { direction: Vector::new(1000, 0), speed: 800 });
    world.actives.remove(hero);
    MobMovementSystem.run(&mut world);
    assert_eq!(world.velocities.get(mob), Some(Velocity::new()));
    assert_eq!(world.mobs.get(mob).unwrap().target, Some(hero));

    world.actives.insert(hero, Active);
    world.transforms.remove(hero);
    MobMovementSystem.run(&mut world);
    assert_eq!(world.velocities.get(mob), Some(Velocity::new()));
}

#[test]
fn step_mob_pursues() {
    let (mob, velocity) =
        step_mob(roaming_mob(), Vector::new(3_000, 0), Some(Vector::new(3_000, -4_000)));
    assert_eq!(mob, roaming_mob());
    assert_eq!(velocity, Velocity { direction: Vector::new(0, -1000), speed: 800 });
}

#[test]
fn step_mob_rests_without_target() {
    let (mob, velocity) = step_mob(roaming_mob(), Vector::new(3_000, 0), None);
    assert_eq!(mob, roaming_mob());
    assert_eq!(velocity, Velocity::new());
}

#[test]
fn step_mob_turns_home_beyond_the_reset_threshold() {
    let chasing = Mob { target: Some(Entity { index: 9 }), ..roaming_mob() };
    // squared distance exactly 100 is not beyond
    let (mob, _) = step_mob(chasing, Vector::new(10_000, 0), Some(Vector::new(20_000, 0)));
    assert_eq!(mob, chasing);
    let (mob, velocity) = step_mob(chasing, Vector::new(6_000, 8_001), Some(Vector::new(20_000, 0)));
    assert_eq!(mob, Mob { resetting: true, ..roaming_mob() });
    // towards the spawn point, not towards the target
    assert_eq!(velocity, Velocity { direction: Vector::new(-600, -801), speed: 800 });
}

#[test]
fn step_mob_arrives_at_the_arrival_distance() {
    let returning = Mob { resetting: true, ..roaming_mob() };
    let (mob, velocity) = step_mob(returning, Vector::new(1_000, 0), None);
    assert_eq!(mob, roaming_mob());
    assert_eq!(velocity, Velocity::new());
    let (mob, velocity) = step_mob(returning, Vector::new(1_001, 0), None);
    assert_eq!(mob, returning);
    assert_eq!(velocity, Velocity { direction: Vector::new(-1000, 0), speed: 800 });
}
