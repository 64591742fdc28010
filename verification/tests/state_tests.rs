use rustymon::animations::{AnimationHandle, AnimationSet};
use rustymon::bundle::RustymonBundle;
use rustymon::components::{CameraTarget, Hero, Transform};
use rustymon::dispatcher::{Dispatcher, DispatcherBuilder, SystemId};
use rustymon::ecs::Entity;
use rustymon::resources::{Input, WorldBounds};
use rustymon::states::{
    GameState, Instance, InstanceState, OverworldState, StateError, StateStack, Trans,
};
use rustymon::world::World;

fn animations() -> AnimationSet {
    let handle = AnimationHandle { id: 1 };
    AnimationSet {
        idle: handle,
        go_right: handle,
        go_left: handle,
        go_forward: handle,
        go_backward: handle,
        go_right_forward: handle,
        go_right_backward: handle,
        go_left_backward: handle,
        go_left_forward: handle,
    }
}

fn dispatcher() -> Dispatcher {
    let mut builder = DispatcherBuilder::new();
    builder.add(SystemId::Input, Vec::new()).unwrap();
    RustymonBundle.build(&mut builder).unwrap();
    builder.build()
}

fn house() -> Instance {
    Instance {
        spawn: (1_000_000, 1_000_000),
        bounds: WorldBounds::new(975_000, 1_025_000, 975_000, 1_025_000),
        exit: (100_000, 76_000),
    }
}

fn overworld_bounds() -> WorldBounds {
    WorldBounds::new(-5_000_000, 5_000_000, -5_000_000, 5_000_000)
}

fn idle() -> Input {
    Input { right_left: 0, up_down: 0, interact: false, escape: false }
}

fn started() -> (StateStack, World, Entity, Entity) {
    let mut world = World::new();
    let mut stack = StateStack::new(OverworldState::new(animations()));
    stack.start(&mut world);
    let hero = stack.overworld.hero.unwrap();
    let camera = stack.overworld.camera.unwrap();
    (stack, world, hero, camera)
}

#[test]
fn overworld_builds_its_entities() {
    let (stack, world, hero, camera) = started();
    assert_eq!(hero, Entity { index: 0 });
    assert_eq!(camera, Entity { index: 1 });
    assert_eq!(stack.overworld.hero_animations, None);
    assert!(!stack.is_in_instance());
    assert_eq!(world.next_entity, 4);
    assert_eq!(world.bounds, Some(overworld_bounds()));
    assert_eq!(OverworldState::build_overworld_bounds(), overworld_bounds());
    assert_eq!(world.heroes.get(hero), Some(Hero::new()));
    assert_eq!(world.animations.get(hero), Some(animations()));
    assert_eq!(world.transforms.get(hero), Some(Transform::at(0, 0, 0)));
    assert_eq!(world.camera_targets.get(camera), Some(CameraTarget { entity: hero }));
    assert_eq!(world.transforms.get(camera), Some(Transform::at(0, 0, 1000)));
    let building = Entity { index: 2 };
    assert_eq!(world.transforms.get(building), Some(Transform::at(100_000, 100_000, 0)));
    assert!(world.bodies.contains(building));
    let portal = Entity { index: 3 };
    assert_eq!(world.transforms.get(portal), Some(Transform::at(100_000, 76_000, 0)));
    assert_eq!(world.portals.get(portal).unwrap().instance, house());
    assert_eq!(world.game_state, GameState::Overworld((0, 0)));
}

#[test]
fn instance_state_places_hero_and_camera_at_the_spawn_point() {
    let mut world = World::new();
    let hero = world.create_entity();
    let camera = world.create_entity();
    let other = world.create_entity();
    world.transforms.insert(hero, Transform::at(1, 2, 0));
    world.transforms.insert(other, Transform::at(3, 4, 5));
    let mut state = InstanceState::new(house(), hero, camera);
    assert_eq!(state.build_transform_from_spawn(), Transform::at(1_000_000, 1_000_000, 0));
    state.on_start(&mut world);
    assert_eq!(world.transforms.get(hero), Some(Transform::at(1_000_000, 1_000_000, 0)));
    assert_eq!(world.transforms.get(camera), Some(Transform::at(1_000_000, 1_000_000, 1000)));
    assert_eq!(world.transforms.get(other), Some(Transform::at(3, 4, 5)));
    assert_eq!(world.bounds, Some(house().bounds));
    state.on_stop(&mut world);
    assert_eq!(world.bounds, Some(house().bounds));
}

#[test]
fn escape_asks_for_the_overworld_at_the_exit() {
    let mut world = World::new();
    world.game_state = GameState::Instance(house());
    let mut state = InstanceState::new(house(), Entity { index: 0 }, Entity { index: 1 });
    assert_eq!(state.handle_event(&mut world), Trans::Nothing);
    assert_eq!(world.game_state, GameState::Instance(house()));
    world.input = Input { escape: true, ..idle() };
    assert_eq!(state.handle_event(&mut world), Trans::Nothing);
    assert_eq!(world.game_state, GameState::Overworld((100_000, 76_000)));
}

#[test]
fn states_ask_for_the_transition_that_the_game_state_calls_for() {
    let dispatcher = DispatcherBuilder::new().build();
    let (mut stack, mut world, hero, camera) = started();
    assert_eq!(stack.overworld.update(&dispatcher, &mut world), Trans::Nothing);
    world.game_state = GameState::Instance(house());
    assert_eq!(
        stack.overworld.update(&dispatcher, &mut world),
        Trans::Push(InstanceState::new(house(), hero, camera))
    );
    let mut inside = InstanceState::new(house(), hero, camera);
    assert_eq!(inside.update(&dispatcher, &mut world), Trans::Nothing);
    world.game_state = GameState::Overworld((1, 2));
    assert_eq!(inside.update(&dispatcher, &mut world), Trans::Pop);
}

#[test]
fn an_overworld_that_has_not_started_asks_for_nothing() {
    let dispatcher = DispatcherBuilder::new().build();
    let mut world = World::new();
    world.game_state = GameState::Instance(house());
    let mut overworld = OverworldState::new(animations());
    assert_eq!(overworld.update(&dispatcher, &mut world), Trans::Nothing);
}

#[test]
fn pausing_remembers_where_the_hero_stands() {
    let (mut stack, mut world, hero, _) = started();
    world.transforms.insert(hero, Transform::at(12, 34, 0));
    stack.overworld.on_pause(&world);
    assert_eq!(stack.overworld.paused_hero, Some(Transform::at(12, 34, 0)));
}

#[test]
fn resuming_needs_the_game_state_to_be_the_overworld() {
    let (mut stack, mut world, hero, _) = started();
    world.game_state = GameState::Instance(house());
    world.bounds = None;
    assert_eq!(stack.overworld.on_resume(&mut world), Err(StateError::NotOverworld));
    assert_eq!(world.bounds, None);
    assert_eq!(world.transforms.get(hero), Some(Transform::at(0, 0, 0)));
    world.game_state = GameState::Overworld((7, 8));
    assert_eq!(stack.overworld.on_resume(&mut world), Ok(()));
    assert_eq!(world.bounds, Some(overworld_bounds()));
    assert_eq!(world.transforms.get(hero), Some(Transform::at(7, 8, 0)));
}

#[test]
fn contradictory_transitions_are_errors() {
    let (mut stack, mut world, hero, camera) = started();
    assert_eq!(stack.pop(&mut world), Err(StateError::AtRoot));
    let inside = InstanceState::new(house(), hero, camera);
    assert_eq!(stack.push(inside, &mut world), Ok(()));
    assert!(stack.is_in_instance());
    assert_eq!(stack.push(inside, &mut world), Err(StateError::AlreadyInInstance));
    world.game_state = GameState::Instance(house());
    assert_eq!(stack.pop(&mut world), Err(StateError::NotOverworld));
    assert!(stack.is_in_instance());
    world.game_state = GameState::Overworld((1, 1));
    assert_eq!(stack.pop(&mut world), Ok(()));
    assert!(!stack.is_in_instance());
    assert_eq!(stack.pop(&mut world), Err(StateError::AtRoot));
}

#[test]
fn portal_and_escape_lead_into_the_instance_and_back() {
    let dispatcher = dispatcher();
    let (mut stack, mut world, hero, camera) = started();

    // nothing is asked for: the game stays in the overworld
    stack.update(&dispatcher, &mut world);
    assert!(!stack.is_in_instance());
    assert_eq!(world.game_state, GameState::Overworld((0, 0)));

    // the hero stands at the portal and uses it
    world.transforms.insert(hero, Transform::at(100_000, 60_000, 0));
    world.input = Input { interact: true, ..idle() };
    stack.update(&dispatcher, &mut world);
    assert!(stack.is_in_instance());
    assert_eq!(world.game_state, GameState::Instance(house()));
    assert_eq!(stack.instance, Some(InstanceState::new(house(), hero, camera)));
    assert_eq!(stack.overworld.paused_hero, Some(Transform::at(100_000, 60_000, 0)));
    assert_eq!(world.transforms.get(hero), Some(Transform::at(1_000_000, 1_000_000, 0)));
    assert_eq!(world.transforms.get(camera), Some(Transform::at(1_000_000, 1_000_000, 1000)));
    assert_eq!(world.bounds, Some(house().bounds));

    // holding the action inside the instance changes nothing
    stack.update(&dispatcher, &mut world);
    assert!(stack.is_in_instance());
    assert_eq!(world.game_state, GameState::Instance(house()));
    assert_eq!(world.transforms.get(hero), Some(Transform::at(1_000_000, 1_000_000, 0)));

    // the hero cannot leave the bounds of the instance
    world.input = Input { right_left: 1000, ..idle() };
    for _ in 0..40 {
        stack.update(&dispatcher, &mut world);
    }
    assert_eq!(world.transforms.get(hero), Some(Transform::at(1_025_000, 1_000_000, 0)));

    // escape leads back to the exit, exactly
    world.input = Input { escape: true, ..idle() };
    stack.update(&dispatcher, &mut world);
    assert!(!stack.is_in_instance());
    assert_eq!(world.game_state, GameState::Overworld((100_000, 76_000)));
    assert_eq!(world.transforms.get(hero), Some(Transform::at(100_000, 76_000, 0)));
    assert_eq!(world.transforms.get(camera), Some(Transform::at(100_000, 76_000, 1000)));
    assert_eq!(world.bounds, Some(overworld_bounds()));

    // escape in the overworld changes nothing
    stack.update(&dispatcher, &mut world);
    assert!(!stack.is_in_instance());
    assert_eq!(world.game_state, GameState::Overworld((100_000, 76_000)));
}
