use rustymon::collision::{
    contact_box_box, contact_box_circle, contact_circle_box, contact_circle_circle, Contact,
};
use rustymon::components::{Active, Body, CollisionMarker, Dynamic, Shape, Transform, Velocity};
use rustymon::ecs::Entity;
use rustymon::resources::WorldBounds;
use rustymon::shapes::{Ball, Cuboid};
use rustymon::systems::physics::{clamp_position, compute_contact, integrate};
use rustymon::systems::{MovementSystem, PhysicsSystem};
use rustymon::vector::Vector;
use rustymon::world::World;

fn circle(radius: i32, dynamic: Dynamic) -> Body {
    Body { shape: Shape::Circle { shape: Ball::new(radius) }, dynamic }
}

fn rectangle(half_width: i32, half_height: i32, dynamic: Dynamic) -> Body {
    Body {
        shape: Shape::Box { shape: Cuboid::new(Vector::new(half_width, half_height)) },
        dynamic,
    }
}

fn place(world: &mut World, x: i32, y: i32, body: Body) -> Entity {
    let entity = world.create_entity();
    world.transforms.insert(entity, Transform::at(x, y, 0));
    world.bodies.insert(entity, body);
    world.actives.insert(entity, Active);
    entity
}

fn position(world: &World, entity: Entity) -> Vector {
    world.transforms.get(entity).unwrap().translation
}

#[test]
fn circle_against_the_side_of_a_box() {
    let found = contact_circle_box(
        &Vector::new(45_000, 0),
        &Ball::new(16_000),
        &Vector::new(0, 0),
        &Cuboid::new(Vector::new(32_000, 16_000)),
    );
    assert_eq!(found, Some(Contact { normal: Vector::new(-1000, 0), depth: 3_000 }));
    assert_eq!(found.unwrap().displacement(), Vector::new(3_000, 0));
}

#[test]
fn circle_against_the_corner_of_a_box() {
    let found = contact_circle_box(
        &Vector::new(40_000, 22_000),
        &Ball::new(16_000),
        &Vector::new(0, 0),
        &Cuboid::new(Vector::new(32_000, 16_000)),
    );
    assert_eq!(found, Some(Contact { normal: Vector::new(-800, -600), depth: 6_000 }));
    assert_eq!(found.unwrap().displacement(), Vector::new(4_800, 3_600));
}

#[test]
fn circle_against_a_corner_with_rounding() {
    let ball = Ball::new(16_000);
    let cuboid = Cuboid::new(Vector::new(32_000, 16_000));
    let found = contact_circle_box(&Vector::new(39_000, 21_000), &ball, &Vector::new(0, 0), &cuboid);
    assert_eq!(found, Some(Contact { normal: Vector::new(-814, -582), depth: 7_398 }));
    let push = found.unwrap().displacement();
    assert_eq!(push, Vector::new(6_022, 4_306));
    let moved = Vector::new(39_000, 21_000).translate(push.x, push.y);
    assert_eq!(contact_circle_box(&moved, &ball, &Vector::new(0, 0), &cuboid), None);
}

#[test]
fn circle_with_its_centre_inside_a_box() {
    let found = contact_circle_box(
        &Vector::new(30_000, 0),
        &Ball::new(16_000),
        &Vector::new(0, 0),
        &Cuboid::new(Vector::new(32_000, 16_000)),
    );
    assert_eq!(found, Some(Contact { normal: Vector::new(-1000, 0), depth: 18_000 }));
    let found = contact_circle_box(
        &Vector::new(-3_000, -15_000),
        &Ball::new(16_000),
        &Vector::new(0, 0),
        &Cuboid::new(Vector::new(32_000, 16_000)),
    );
    assert_eq!(found, Some(Contact { normal: Vector::new(0, 1000), depth: 17_000 }));
}

#[test]
fn touching_shapes_are_not_in_contact() {
    let cuboid = Cuboid::new(Vector::new(32_000, 16_000));
    let ball = Ball::new(16_000);
    let origin = Vector::new(0, 0);
    assert_eq!(contact_circle_box(&Vector::new(48_000, 0), &ball, &origin, &cuboid), None);
    assert_eq!(contact_circle_box(&Vector::new(47_999, 0), &ball, &origin, &cuboid).unwrap().depth, 1);
    assert_eq!(contact_circle_circle(&origin, &ball, &Vector::new(32_000, 0), &ball), None);
    assert_eq!(contact_box_box(&origin, &cuboid, &Vector::new(64_000, 0), &cuboid), None);
    assert_eq!(contact_box_box(&origin, &cuboid, &Vector::new(0, 32_000), &cuboid), None);
}

#[test]
fn circles_that_overlap() {
    let found = contact_circle_circle(
        &Vector::new(0, 0),
        &Ball::new(16_000),
        &Vector::new(18_000, 24_000),
        &Ball::new(16_000),
    );
    assert_eq!(found, Some(Contact { normal: Vector::new(600, 800), depth: 2_000 }));
    assert_eq!(found.unwrap().displacement(), Vector::new(-1_200, -1_600));
}

#[test]
fn circles_with_the_same_centre_part_along_the_x_axis() {
    let found = contact_circle_circle(
        &Vector::new(5, 5),
        &Ball::new(16_000),
        &Vector::new(5, 5),
        &Ball::new(16_000),
    );
    assert_eq!(found, Some(Contact { normal: Vector::new(1000, 0), depth: 32_000 }));
}

#[test]
fn boxes_part_along_the_axis_of_least_overlap() {
    let square = Cuboid::new(Vector::new(10_000, 10_000));
    let found = contact_box_box(&Vector::new(0, 0), &square, &Vector::new(15_000, 5_000), &square);
    assert_eq!(found, Some(Contact { normal: Vector::new(1000, 0), depth: 5_000 }));
    let found = contact_box_box(&Vector::new(0, 0), &square, &Vector::new(5_000, -15_000), &square);
    assert_eq!(found, Some(Contact { normal: Vector::new(0, -1000), depth: 5_000 }));
    let found = contact_box_box(&Vector::new(0, 0), &square, &Vector::new(0, 0), &square);
    assert_eq!(found, Some(Contact { normal: Vector::new(1000, 0), depth: 20_000 }));
}

#[test]
fn box_against_circle_mirrors_circle_against_box() {
    let cuboid = Cuboid::new(Vector::new(32_000, 16_000));
    let ball = Ball::new(16_000);
    let seen_from_circle =
        contact_circle_box(&Vector::new(40_000, 22_000), &ball, &Vector::new(0, 0), &cuboid).unwrap();
    let seen_from_box =
        contact_box_circle(&Vector::new(0, 0), &cuboid, &Vector::new(40_000, 22_000), &ball).unwrap();
    assert_eq!(seen_from_box.depth, seen_from_circle.depth);
    assert_eq!(seen_from_box.normal, Vector::new(800, 600));
    assert_eq!(seen_from_circle.normal, Vector::new(-800, -600));
}

#[test]
fn compute_contact_picks_the_test_for_the_pair() {
    let ball = circle(16_000, Dynamic::Dynamic);
    let wall = rectangle(32_000, 16_000, Dynamic::Static);
    let at_origin = Transform::at(0, 0, 0);
    let beside = Transform::at(45_000, 0, 0);
    assert_eq!(
        compute_contact(&beside, &ball, &at_origin, &wall),
        Some(Contact { normal: Vector::new(-1000, 0), depth: 3_000 })
    );
    assert_eq!(
        compute_contact(&at_origin, &wall, &beside, &ball),
        Some(Contact { normal: Vector::new(1000, 0), depth: 3_000 })
    );
    assert_eq!(
        compute_contact(&at_origin, &ball, &Transform::at(20_000, 0, 0), &ball),
        Some(Contact { normal: Vector::new(1000, 0), depth: 12_000 })
    );
    assert_eq!(
        compute_contact(&at_origin, &wall, &Transform::at(0, 30_000, 0), &wall),
        Some(Contact { normal: Vector::new(0, 1000), depth: 2_000 })
    );
    assert_eq!(compute_contact(&at_origin, &ball, &Transform::at(0, 90_000, 0), &wall), None);
}

#[test]
fn dynamic_circle_is_pushed_out_of_static_box() {
    let mut world = World::new();
    let ball = place(&mut world, 40_000, 22_000, circle(16_000, Dynamic::Dynamic));
    let wall = place(&mut world, 0, 0, rectangle(32_000, 16_000, Dynamic::Static));
    PhysicsSystem.run(&mut world);
    assert_eq!(position(&world, ball), Vector::new(44_800, 25_600));
    assert_eq!(position(&world, wall), Vector::new(0, 0));
    let again = compute_contact(
        &world.transforms.get(ball).unwrap(),
        &world.bodies.get(ball).unwrap(),
        &world.transforms.get(wall).unwrap(),
        &world.bodies.get(wall).unwrap(),
    );
    assert_eq!(again, None);
    // a second pass finds nothing to do
    PhysicsSystem.run(&mut world);
    assert_eq!(position(&world, ball), Vector::new(44_800, 25_600));
}

#[test]
fn collision_marks_do_not_outlive_the_tick() {
    let mut world = World::new();
    let ball = place(&mut world, 45_000, 0, circle(16_000, Dynamic::Dynamic));
    place(&mut world, 0, 0, rectangle(32_000, 16_000, Dynamic::Static));
    PhysicsSystem.run(&mut world);
    assert_eq!(world.collisions.get(ball), None);
    assert_eq!(world.collisions.len(), 0);
}

#[test]
fn a_mark_left_from_before_is_applied_and_cleared() {
    let mut world = World::new();
    let ball = place(&mut world, 0, 0, circle(16_000, Dynamic::Dynamic));
    world.collisions.insert(ball, CollisionMarker::new(Vector::new(7, -9)));
    PhysicsSystem.run(&mut world);
    assert_eq!(position(&world, ball), Vector::new(7, -9));
    assert_eq!(world.collisions.get(ball), None);
}

#[test]
fn static_bodies_are_never_moved() {
    let mut world = World::new();
    let first = place(&mut world, 0, 0, circle(16_000, Dynamic::Static));
    let second = place(&mut world, 10_000, 0, rectangle(32_000, 16_000, Dynamic::Static));
    PhysicsSystem.run(&mut world);
    assert_eq!(position(&world, first), Vector::new(0, 0));
    assert_eq!(position(&world, second), Vector::new(10_000, 0));
}

#[test]
fn two_dynamic_bodies_push_each_other() {
    let mut world = World::new();
    let left = place(&mut world, 0, 0, circle(16_000, Dynamic::Dynamic));
    let right = place(&mut world, 20_000, 0, circle(16_000, Dynamic::Dynamic));
    PhysicsSystem.run(&mut world);
    assert_eq!(position(&world, left), Vector::new(-12_000, 0));
    assert_eq!(position(&world, right), Vector::new(32_000, 0));
}

#[test]
fn the_last_collision_of_a_tick_wins() {
    let mut world = World::new();
    let ball = place(&mut world, 0, 0, circle(16_000, Dynamic::Dynamic));
    place(&mut world, 45_000, 0, rectangle(32_000, 16_000, Dynamic::Static));
    place(&mut world, 0, 29_000, rectangle(32_000, 16_000, Dynamic::Static));
    PhysicsSystem.run(&mut world);
    // pushed out of the second wall only, not by the sum of both pushes
    assert_eq!(position(&world, ball), Vector::new(0, -3_000));
}

#[test]
fn entities_without_a_body_or_a_position_do_not_collide() {
    let mut world = World::new();
    let ball = place(&mut world, 0, 0, circle(16_000, Dynamic::Dynamic));
    let ghost = world.create_entity();
    world.transforms.insert(ghost, Transform::at(1_000, 0, 0));
    world.actives.insert(ghost, Active);
    let nowhere = world.create_entity();
    world.bodies.insert(nowhere, circle(16_000, Dynamic::Dynamic));
    world.actives.insert(nowhere, Active);
    PhysicsSystem.run(&mut world);
    assert_eq!(position(&world, ball), Vector::new(0, 0));
    assert_eq!(position(&world, ghost), Vector::new(1_000, 0));
    assert_eq!(world.transforms.get(nowhere), None);
}

#[test]
fn physics_keeps_the_drawing_depth() {
    let mut world = World::new();
    let ball = world.create_entity();
    world.transforms.insert(ball, Transform::at(45_000, 0, 5));
    world.bodies.insert(ball, circle(16_000, Dynamic::Dynamic));
    world.actives.insert(ball, Active);
    place(&mut world, 0, 0, rectangle(32_000, 16_000, Dynamic::Static));
    PhysicsSystem.run(&mut world);
    assert_eq!(world.transforms.get(ball), Some(Transform::at(48_000, 0, 5)));
}

#[test]
fn integrate_adds_direction_times_speed() {
    let moved = integrate(
        Vector::new(1_000, 2_000),
        Velocity { direction: Vector::new(600, 800), speed: 1000 },
        None,
    );
    assert_eq!(moved, Vector::new(1_600, 2_800));
    let moved = integrate(
        Vector::new(0, 0),
        Velocity { direction: Vector::new(-600, 800), speed: 800 },
        None,
    );
    assert_eq!(moved, Vector::new(-480, 640));
    // 708 * 800 / 1000 = 566.4, rounded away from zero
    let moved = integrate(
        Vector::new(0, 0),
        Velocity { direction: Vector::new(708, -708), speed: 800 },
        None,
    );
    assert_eq!(moved, Vector::new(567, -567));
}

#[test]
fn integrate_clamps_into_bounds() {
    let bounds = Some(WorldBounds::new(-100, 100, -50, 50));
    let velocity = Velocity { direction: Vector::new(1000, -1000), speed: 1000 };
    assert_eq!(integrate(Vector::new(90, 0), velocity, bounds), Vector::new(100, -50));
    assert_eq!(integrate(Vector::new(-2_000, 900), velocity, bounds), Vector::new(-100, -50));
    assert_eq!(integrate(Vector::new(-1_000, 1_000), velocity, bounds), Vector::new(0, 0));
}

#[test]
fn integrate_is_unbounded_without_bounds() {
    let velocity = Velocity { direction: Vector::new(1000, 0), speed: 1000 };
    assert_eq!(integrate(Vector::new(9_000_000, 0), velocity, None), Vector::new(9_001_000, 0));
}

#[test]
fn integrate_saturates_at_the_end_of_the_coordinate_range() {
    let velocity = Velocity { direction: Vector::new(1000, -1000), speed: 1000 };
    assert_eq!(
        integrate(Vector::new(i32::MAX, i32::MIN), velocity, None),
        Vector::new(i32::MAX, i32::MIN)
    );
}

#[test]
fn clamp_position_keeps_points_inside() {
    let bounds = Some(WorldBounds::new(-100, 100, -50, 50));
    assert_eq!(clamp_position(Vector::new(0, 0), bounds), Vector::new(0, 0));
    assert_eq!(clamp_position(Vector::new(100, -50), bounds), Vector::new(100, -50));
    assert_eq!(clamp_position(Vector::new(101, -51), bounds), Vector::new(100, -50));
    assert_eq!(clamp_position(Vector::new(-500, 500), bounds), Vector::new(-100, 50));
    assert_eq!(clamp_position(Vector::new(-500, 500), None), Vector::new(-500, 500));
}

#[test]
fn movement_system_moves_what_has_a_velocity() {
    let mut world = World::new();
    let mover = world.create_entity();
    world.transforms.insert(mover, Transform::at(0, 0, 3));
    world.velocities.insert(mover, Velocity { direction: Vector::new(0, 1000), speed: 800 });
    world.actives.insert(mover, Active);
    let rock = world.create_entity();
    world.transforms.insert(rock, Transform::at(5, 5, 0));
    world.actives.insert(rock, Active);
    let wind = world.create_entity();
    world.velocities.insert(wind, Velocity { direction: Vector::new(1000, 0), speed: 800 });
    world.actives.insert(wind, Active);
    MovementSystem.run(&mut world);
    assert_eq!(world.transforms.get(mover), Some(Transform::at(0, 800, 3)));
    assert_eq!(world.transforms.get(rock), Some(Transform::at(5, 5, 0)));
    assert_eq!(world.transforms.get(wind), None);
    // velocity does not decay
    MovementSystem.run(&mut world);
    assert_eq!(world.transforms.get(mover), Some(Transform::at(0, 1_600, 3)));
}

#[test]
fn movement_system_keeps_entities_in_the_world_bounds() {
    let mut world = World::new();
    world.bounds = Some(WorldBounds::new(-1_000, 1_000, -1_000, 1_000));
    let mover = world.create_entity();
    world.transforms.insert(mover, Transform::at(500, 0, 0));
    world.velocities.insert(mover, Velocity { direction: Vector::new(1000, 0), speed: 800 });
    world.actives.insert(mover, Active);
    MovementSystem.run(&mut world);
    assert_eq!(position(&world, mover), Vector::new(1_000, 0));
    MovementSystem.run(&mut world);
    assert_eq!(position(&world, mover), Vector::new(1_000, 0));
}

#[test]
fn movement_system_skips_inactive_entities() {
    let mut world = World::new();
    let sleeper = world.create_entity();
    world.transforms.insert(sleeper, Transform::at(0, 0, 0));
    world.velocities.insert(sleeper, Velocity { direction: Vector::new(1000, 0), speed: 800 });
    MovementSystem.run(&mut world);
    assert_eq!(position(&world, sleeper), Vector::new(0, 0));
    world.actives.insert(sleeper, Active);
    MovementSystem.run(&mut world);
    assert_eq!(position(&world, sleeper), Vector::new(800, 0));
}

#[test]
fn physics_system_skips_inactive_entities() {
    let mut world = World::new();
    let ball = place(&mut world, 45_000, 0, circle(16_000, Dynamic::Dynamic));
    let wall = place(&mut world, 0, 0, rectangle(32_000, 16_000, Dynamic::Static));
    // an inactive obstacle is not in the way
    world.actives.remove(wall);
    PhysicsSystem.run(&mut world);
    assert_eq!(position(&world, ball), Vector::new(45_000, 0));
    // an inactive body is not pushed, and a mark on it is dropped
    world.actives.insert(wall, Active);
    world.actives.remove(ball);
    world.collisions.insert(ball, CollisionMarker::new(Vector::new(1, 1)));
    PhysicsSystem.run(&mut world);
    assert_eq!(position(&world, ball), Vector::new(45_000, 0));
    assert_eq!(world.collisions.get(ball), None);
    world.actives.insert(ball, Active);
    PhysicsSystem.run(&mut world);
    assert_eq!(position(&world, ball), Vector::new(48_000, 0));
}

#[test]
fn bounds_around_origin() {
    assert_eq!(WorldBounds::new_around_origin(10_000, 2_000), WorldBounds::new(-5_000, 5_000, -1_000, 1_000));
    assert_eq!(WorldBounds::new_around_origin(3, 0), WorldBounds::new(-2, 2, 0, 0));
}

#[test]
fn every_pair_of_shapes_is_free_after_the_push() {
    let shapes = [
        circle(16_000, Dynamic::Dynamic),
        rectangle(32_000, 16_000, Dynamic::Dynamic),
        circle(1, Dynamic::Dynamic),
        rectangle(0, 7_000, Dynamic::Dynamic),
    ];
    let offsets = [
        (0, 0),
        (1, 0),
        (0, -1),
        (7_000, 5_000),
        (-7_001, 4_999),
        (39_000, 21_000),
        (-39_000, -21_000),
        (30_000, -1),
        (-12_345, 31_999),
        (47_999, 0),
        (3, -33_333),
    ];
    let here = Transform::at(250_000, -125_000, 0);
    let mut contacts = 0;
    for first in shapes.iter() {
        for second in shapes.iter() {
            for (dx, dy) in offsets.iter() {
                let there = Transform::at(250_000 + dx, -125_000 + dy, 0);
                if let Some(contact) = compute_contact(&here, first, &there, second) {
                    contacts += 1;
                    assert!(contact.depth > 0);
                    let push = contact.displacement();
                    let moved = Transform {
                        translation: here.translation.translate(push.x, push.y),
                        z: 0,
                    };
                    assert_eq!(compute_contact(&moved, first, &there, second), None);
                }
            }
        }
    }
    assert!(contacts > 50);
}

#[test]
fn dynamic_box_is_pushed_out_of_static_circle() {
    let mut world = World::new();
    let crate_box = place(&mut world, 0, 0, rectangle(32_000, 16_000, Dynamic::Dynamic));
    let pillar = place(&mut world, 40_000, 22_000, circle(16_000, Dynamic::Static));
    PhysicsSystem.run(&mut world);
    assert_eq!(position(&world, crate_box), Vector::new(-4_800, -3_600));
    assert_eq!(position(&world, pillar), Vector::new(40_000, 22_000));
    PhysicsSystem.run(&mut world);
    assert_eq!(position(&world, crate_box), Vector::new(-4_800, -3_600));
}
