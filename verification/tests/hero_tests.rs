use rustymon::animations::{
    create_singleton_looping_set, AnimationCommand, AnimationControlSet, AnimationHandle,
    AnimationSet, EndControl, HeroAnimationId,
};
use rustymon::components::{Active, Hero, Velocity};
use rustymon::ecs::Entity;
use rustymon::resources::Input;
use rustymon::systems::hero_movement::{compute_animation_id, step_hero, HERO_SPEED};
use rustymon::systems::HeroMovementSystem;
use rustymon::vector::Vector;
use rustymon::world::World;

fn animations() -> AnimationSet {
    AnimationSet {
        idle: AnimationHandle { id: 10 },
        go_right: AnimationHandle { id: 11 },
        go_left: AnimationHandle { id: 12 },
        go_forward: AnimationHandle { id: 13 },
        go_backward: AnimationHandle { id: 14 },
        go_right_forward: AnimationHandle { id: 15 },
        go_right_backward: AnimationHandle { id: 16 },
        go_left_backward: AnimationHandle { id: 17 },
        go_left_forward: AnimationHandle { id: 18 },
    }
}

fn axes(right_left: i32, up_down: i32) -> Input {
    Input { right_left, up_down, interact: false, escape: false }
}

fn add_hero(world: &mut World, with_animations: bool) -> Entity {
    let hero = world.create_entity();
    world.heroes.insert(hero, Hero::new());
    world.velocities.insert(hero, Velocity::new());
    world.actives.insert(hero, Active);
    if with_animations {
        world.animations.insert(hero, animations());
    }
    hero
}

#[test]
fn each_pair_of_signs_selects_its_animation() {
    assert_eq!(compute_animation_id(1000, 1000), HeroAnimationId::GoRightForward);
    assert_eq!(compute_animation_id(1000, -1000), HeroAnimationId::GoRightBackward);
    assert_eq!(compute_animation_id(1000, 0), HeroAnimationId::GoRight);
    assert_eq!(compute_animation_id(-1000, 1000), HeroAnimationId::GoLeftForward);
    assert_eq!(compute_animation_id(-1000, -1000), HeroAnimationId::GoLeftBackward);
    assert_eq!(compute_animation_id(-1000, 0), HeroAnimationId::GoLeft);
    assert_eq!(compute_animation_id(0, 1000), HeroAnimationId::GoForward);
    assert_eq!(compute_animation_id(0, -1000), HeroAnimationId::GoBackward);
    assert_eq!(compute_animation_id(0, 0), HeroAnimationId::Idle);
}

#[test]
fn only_the_sign_of_an_axis_matters() {
    assert_eq!(compute_animation_id(1, i32::MAX), HeroAnimationId::GoRightForward);
    assert_eq!(compute_animation_id(i32::MIN, -1), HeroAnimationId::GoLeftBackward);
    assert_eq!(compute_animation_id(250, 0), HeroAnimationId::GoRight);
}

#[test]
fn the_set_binds_each_id_to_its_handle() {
    let set = animations();
    assert_eq!(set.get(HeroAnimationId::Idle), AnimationHandle { id: 10 });
    assert_eq!(set.get(HeroAnimationId::GoRight), AnimationHandle { id: 11 });
    assert_eq!(set.get(HeroAnimationId::GoLeft), AnimationHandle { id: 12 });
    assert_eq!(set.get(HeroAnimationId::GoForward), AnimationHandle { id: 13 });
    assert_eq!(set.get(HeroAnimationId::GoBackward), AnimationHandle { id: 14 });
    assert_eq!(set.get(HeroAnimationId::GoRightForward), AnimationHandle { id: 15 });
    assert_eq!(set.get(HeroAnimationId::GoRightBackward), AnimationHandle { id: 16 });
    assert_eq!(set.get(HeroAnimationId::GoLeftBackward), AnimationHandle { id: 17 });
    assert_eq!(set.get(HeroAnimationId::GoLeftForward), AnimationHandle { id: 18 });
}

#[test]
fn a_singleton_set_starts_one_animation_and_loops_it() {
    let set = create_singleton_looping_set(HeroAnimationId::GoLeft, &AnimationHandle { id: 12 });
    assert_eq!(
        set,
        AnimationControlSet {
            id: HeroAnimationId::GoLeft,
            animation: AnimationHandle { id: 12 },
            end: EndControl::Loop(None),
            rate_multiplier: 1000,
            command: AnimationCommand::Start,
        }
    );
}

#[test]
fn step_hero_steers_by_the_input() {
    assert_eq!(HERO_SPEED, 1000);
    let (_, velocity, _) = step_hero(Hero::new(), None, axes(1000, 0));
    assert_eq!(velocity, Velocity { direction: Vector::new(1000, 0), speed: 1000 });
    let (_, velocity, _) = step_hero(Hero::new(), None, axes(-1000, 1000));
    assert_eq!(velocity, Velocity { direction: Vector::new(-708, 708), speed: 1000 });
    let (_, velocity, _) = step_hero(Hero::new(), None, axes(0, -300));
    assert_eq!(velocity, Velocity { direction: Vector::new(0, -1000), speed: 1000 });
}

#[test]
fn zero_input_gives_zero_velocity_and_idle() {
    let (hero, velocity, swap) = step_hero(Hero::new(), Some(animations()), axes(0, 0));
    assert_eq!(velocity, Velocity::new());
    assert_eq!(hero.current_animation_id, Some(HeroAnimationId::Idle));
    assert_eq!(swap.unwrap().id, HeroAnimationId::Idle);
}

#[test]
fn the_control_is_swapped_once_when_the_animation_changes() {
    let set = Some(animations());
    let mut swaps = 0;
    let (hero, _, swap) = step_hero(Hero::new(), set, axes(1000, 0));
    assert_eq!(hero.current_animation_id, Some(HeroAnimationId::GoRight));
    assert_eq!(
        swap,
        Some(create_singleton_looping_set(HeroAnimationId::GoRight, &AnimationHandle { id: 11 }))
    );
    // crossing from (1, 0) to (1, 1)
    let mut hero = hero;
    for _ in 0..5 {
        let (next, _, swap) = step_hero(hero, set, axes(1000, 1000));
        if let Some(control) = swap {
            swaps += 1;
            assert_eq!(
                control,
                create_singleton_looping_set(
                    HeroAnimationId::GoRightForward,
                    &AnimationHandle { id: 15 }
                )
            );
        }
        assert_eq!(next.current_animation_id, Some(HeroAnimationId::GoRightForward));
        hero = next;
    }
    assert_eq!(swaps, 1);
}

#[test]
fn a_hero_without_animations_never_swaps() {
    let (hero, _, swap) = step_hero(Hero::new(), None, axes(1000, 1000));
    assert_eq!(hero, Hero::new());
    assert_eq!(swap, None);
}

#[test]
fn hero_system_writes_velocity_animation_and_control() {
    let mut world = World::new();
    let hero = add_hero(&mut world, true);
    world.input = axes(1000, 0);
    HeroMovementSystem.run(&mut world);
    assert_eq!(
        world.velocities.get(hero),
        Some(Velocity { direction: Vector::new(1000, 0), speed: 1000 })
    );
    assert_eq!(world.heroes.get(hero).unwrap().current_animation_id, Some(HeroAnimationId::GoRight));
    assert_eq!(world.animation_controls.get(hero).unwrap().id, HeroAnimationId::GoRight);
    assert_eq!(world.animation_controls.get(hero).unwrap().animation, AnimationHandle { id: 11 });
}

#[test]
fn hero_system_does_not_restart_a_playing_animation() {
    let mut world = World::new();
    let hero = add_hero(&mut world, true);
    world.input = axes(1000, 0);
    HeroMovementSystem.run(&mut world);
    world.input = axes(1000, 1000);
    HeroMovementSystem.run(&mut world);
    assert_eq!(world.animation_controls.get(hero).unwrap().id, HeroAnimationId::GoRightForward);
    // mark the control that is playing: a swap would replace the mark
    let mut playing = world.animation_controls.get(hero).unwrap();
    playing.command = AnimationCommand::Pause;
    world.animation_controls.insert(hero, playing);
    for _ in 0..3 {
        HeroMovementSystem.run(&mut world);
        assert_eq!(world.animation_controls.get(hero), Some(playing));
    }
    // back to (1, 0): swapped again
    world.input = axes(1000, 0);
    HeroMovementSystem.run(&mut world);
    assert_eq!(
        world.animation_controls.get(hero),
        Some(create_singleton_looping_set(HeroAnimationId::GoRight, &AnimationHandle { id: 11 }))
    );
}

#[test]
fn hero_system_resets_velocity_on_idle_input() {
    let mut world = World::new();
    let hero = add_hero(&mut world, false);
    world.velocities.insert(hero, Velocity { direction: Vector::new(0, 1000), speed: 1000 });
    world.input = axes(0, 0);
    HeroMovementSystem.run(&mut world);
    assert_eq!(world.velocities.get(hero), Some(Velocity::new()));
    assert_eq!(world.heroes.get(hero), Some(Hero::new()));
    assert_eq!(world.animation_controls.get(hero), None);
}

#[test]
fn hero_system_skips_inactive_heroes() {
    let mut world = World::new();
    let hero = add_hero(&mut world, true);
    world.actives.remove(hero);
    world.input = axes(1000, 0);
    HeroMovementSystem.run(&mut world);
    assert_eq!(world.velocities.get(hero), Some(Velocity::new()));
    assert_eq!(world.heroes.get(hero), Some(Hero::new()));
    assert_eq!(world.animation_controls.get(hero), None);
}

#[test]
fn hero_system_skips_entities_that_are_no_hero_or_have_no_velocity() {
    let mut world = World::new();
    let bystander = world.create_entity();
    world.velocities.insert(bystander, Velocity { direction: Vector::new(0, 1000), speed: 3 });
    world.actives.insert(bystander, Active);
    let statue = world.create_entity();
    world.heroes.insert(statue, Hero::new());
    world.actives.insert(statue, Active);
    world.animations.insert(statue, animations());
    world.input = axes(1000, 0);
    HeroMovementSystem.run(&mut world);
    assert_eq!(
        world.velocities.get(bystander),
        Some(Velocity { direction: Vector::new(0, 1000), speed: 3 })
    );
    assert_eq!(world.heroes.get(statue), Some(Hero::new()));
    assert_eq!(world.animation_controls.get(statue), None);
    assert_eq!(world.velocities.get(statue), None);
}
