use vstd::prelude::*;
use crate::animations::{
    create_singleton_looping_set, singleton_looping_set, AnimationControlSet, AnimationSet,
    HeroAnimationId,
};
use crate::components::{Hero, Velocity};
use crate::ecs::Entity;
use crate::resources::Input;
use crate::vector::{unit_of, Vector};
use crate::world::World;

verus! {

/// The speed of a hero that moves.
pub const HERO_SPEED: i32 = 1000;

/// The sign of an axis reading: `1`, `0` or `-1`.
pub open spec fn sign(amount: int) -> int {
    if amount > 0 {
        1
    } else if amount < 0 {
        -1
    } else {
        0
    }
}

/// The animation that belongs to the signs of the two axes. The horizontal
/// axis picks right or left, the vertical one forward or backward; both
/// together pick a diagonal, and neither picks `Idle`.
pub open spec fn animation_for(left_right_amount: int, up_down_amount: int) -> HeroAnimationId {
    let horizontal = sign(left_right_amount);
    let vertical = sign(up_down_amount);
    if horizontal == 1 && vertical == 1 {
        HeroAnimationId::GoRightForward
    } else if horizontal == 1 && vertical == -1 {
        HeroAnimationId::GoRightBackward
    } else if horizontal == 1 {
        HeroAnimationId::GoRight
    } else if horizontal == -1 && vertical == 1 {
        HeroAnimationId::GoLeftForward
    } else if horizontal == -1 && vertical == -1 {
        HeroAnimationId::GoLeftBackward
    } else if horizontal == -1 {
        HeroAnimationId::GoLeft
    } else if vertical == 1 {
        HeroAnimationId::GoForward
    } else if vertical == -1 {
        HeroAnimationId::GoBackward
    } else {
        HeroAnimationId::Idle
    }
}

/// Compute the current animation if from the direction of the hero.
pub fn compute_animation_id(left_right_amount: i32, up_down_amount: i32) -> (id: HeroAnimationId)
    ensures
        id == animation_for(left_right_amount as int, up_down_amount as int),
{
    if left_right_amount > 0 {
        if up_down_amount > 0 {
            HeroAnimationId::GoRightForward
        } else if up_down_amount < 0 {
            HeroAnimationId::GoRightBackward
        } else {
            HeroAnimationId::GoRight
        }
    } else if left_right_amount < 0 {
        if up_down_amount > 0 {
            HeroAnimationId::GoLeftForward
        } else if up_down_amount < 0 {
            HeroAnimationId::GoLeftBackward
        } else {
            HeroAnimationId::GoLeft
        }
    } else if up_down_amount > 0 {
        HeroAnimationId::GoForward
    } else if up_down_amount < 0 {
        HeroAnimationId::GoBackward
    } else {
        HeroAnimationId::Idle
    }
}

/// The velocity that the input asks of the hero: at rest where both axes
/// read zero, and otherwise along the direction of the two readings at the
/// speed of a hero.
pub open spec fn steered(input: Input) -> Velocity {
    if input.right_left != 0 || input.up_down != 0 {
        Velocity {
            direction: Vector {
                x: unit_of(input.right_left as int, input.up_down as int).0 as i32,
                y: unit_of(input.right_left as int, input.up_down as int).1 as i32,
            },
            speed: HERO_SPEED,
        }
    } else {
        Velocity::resting()
    }
}

/// Whether the input asks for another animation than the one the hero last
/// started, so that the control has to be swapped. A hero without
/// animations never swaps.
pub open spec fn swaps(hero: Hero, animations: Option<AnimationSet>, input: Input) -> bool {
    animations.is_some() && hero.current_animation_id != Some(
        animation_for(input.right_left as int, input.up_down as int),
    )
}

/// The hero after one step: it remembers the animation that the input asks
/// for, if it has animations.
pub open spec fn steered_hero(hero: Hero, animations: Option<AnimationSet>, input: Input) -> Hero {
    if animations.is_some() {
        Hero {
            current_animation_id: Some(
                animation_for(input.right_left as int, input.up_down as int),
            ),
        }
    } else {
        hero
    }
}

/// The control that a swap starts: the animation that the input asks for,
/// bound to its handle, looping without end.
pub open spec fn swapped_control(animations: AnimationSet, input: Input) -> AnimationControlSet {
    singleton_looping_set(
        animation_for(input.right_left as int, input.up_down as int),
        animations.handle_of(animation_for(input.right_left as int, input.up_down as int)),
    )
}

/// Decides what the hero does in this tick: its new state, its velocity,
/// and the control to swap in if the animation changes (`None` keeps the
/// control that is playing).
pub fn step_hero(hero: Hero, animations: Option<AnimationSet>, input: Input) -> (next: (
    Hero,
    Velocity,
    Option<AnimationControlSet>,
))
    ensures
        next.0 == steered_hero(hero, animations, input),
        next.1 == steered(input),
        next.2.is_some() == swaps(hero, animations, input),
        next.2.is_some() ==> next.2.unwrap() == swapped_control(animations.unwrap(), input),
{
    let mut hero = hero;
    let mut velocity = Velocity::new();
    let mut swap: Option<AnimationControlSet> = None;

    let left_right_amount = input.right_left;
    let up_down_amount = input.up_down;

    if left_right_amount != 0 || up_down_amount != 0 {
        velocity.direction = Vector::new(left_right_amount, up_down_amount).normalize();
        velocity.speed = HERO_SPEED;
    }

    match animations {
        Some(animations) => {
            let id = compute_animation_id(left_right_amount, up_down_amount);
            let changed = match hero.current_animation_id {
                Some(current) => current != id,
                None => true,
            };
            if changed {
                let handle = animations.get(id);
                swap = Some(create_singleton_looping_set(id, &handle));
                hero.current_animation_id = Some(id);
            }
        },
        None => {},
    }
    (hero, velocity, swap)
}

/// While the input keeps asking for the same animation, the control is
/// swapped at most once: after one step, a second step with an input of the
/// same signs swaps nothing and leaves the hero as it is.
pub proof fn lemma_swap_once(hero: Hero, animations: Option<AnimationSet>, first: Input, second: Input)
    requires
        sign(first.right_left as int) == sign(second.right_left as int),
        sign(first.up_down as int) == sign(second.up_down as int),
    ensures
        !swaps(steered_hero(hero, animations, first), animations, second),
        steered_hero(steered_hero(hero, animations, first), animations, second) == steered_hero(
            hero,
            animations,
            first,
        ),
{
}

/// Whether the hero movement system handles `entity`: an active hero with
/// a velocity.
pub open spec fn steers(world: World, entity: Entity) -> bool {
    world.heroes.has(entity) && world.velocities.has(entity) && world.actives.has(entity)
}

/// The hero that the system leaves on an entity.
pub open spec fn hero_after(world: World, entity: Entity) -> Option<Hero> {
    if steers(world, entity) {
        Some(
            steered_hero(
                world.heroes.component(entity).unwrap(),
                world.animations.component(entity),
                world.input,
            ),
        )
    } else {
        world.heroes.component(entity)
    }
}

/// The velocity that the system leaves on an entity.
pub open spec fn velocity_after(world: World, entity: Entity) -> Option<Velocity> {
    if steers(world, entity) {
        Some(steered(world.input))
    } else {
        world.velocities.component(entity)
    }
}

/// The animation control that the system leaves on an entity: a new one
/// where the animation changes, the one that was there otherwise.
pub open spec fn control_after(world: World, entity: Entity) -> Option<AnimationControlSet> {
    if steers(world, entity) && swaps(
        world.heroes.component(entity).unwrap(),
        world.animations.component(entity),
        world.input,
    ) {
        Some(swapped_control(world.animations.component(entity).unwrap(), world.input))
    } else {
        world.animation_controls.component(entity)
    }
}

/// Move the hero according to the input.
/// If the hero has animations, also animates him according to its direction.
pub struct HeroMovementSystem;

impl HeroMovementSystem {
    /// Steers every active hero that has a velocity by the input of the
    /// tick, and swaps its animation control where the animation changes.
    pub fn run(&mut self, world: &mut World)
        ensures
            forall|e: Entity| final(world).heroes.component(e) == hero_after(*old(world), e),
            forall|e: Entity|
                final(world).velocities.component(e) == velocity_after(*old(world), e),
            forall|e: Entity|
                final(world).animation_controls.component(e) == control_after(*old(world), e),
            *final(world) == (World {
                heroes: final(world).heroes,
                velocities: final(world).velocities,
                animation_controls: final(world).animation_controls,
                ..*old(world)
            }),
    {
        let n: usize = world.heroes.len();
        let mut i: usize = 0;
        while i < n
            invariant
                i <= n,
                n as int == world.heroes.span(),
                world.heroes.span() == old(world).heroes.span(),
                *world == (World {
                    heroes: world.heroes,
                    velocities: world.velocities,
                    animation_controls: world.animation_controls,
                    ..*old(world)
                }),
                forall|e: Entity|
                    e.index < i ==> world.heroes.component(e) == hero_after(*old(world), e),
                forall|e: Entity|
                    e.index < i ==> world.velocities.component(e) == velocity_after(
                        *old(world),
                        e,
                    ),
                forall|e: Entity|
                    e.index < i ==> world.animation_controls.component(e) == control_after(
                        *old(world),
                        e,
                    ),
                forall|e: Entity|
                    e.index >= i ==> world.heroes.component(e) == old(world).heroes.component(e),
                forall|e: Entity|
                    e.index >= i ==> world.velocities.component(e) == old(
                        world,
                    ).velocities.component(e),
                forall|e: Entity|
                    e.index >= i ==> world.animation_controls.component(e) == old(
                        world,
                    ).animation_controls.component(e),
            decreases n - i,
        {
            let entity = Entity { index: i };
            match world.heroes.get(entity) {
                Some(hero) => {
                    if world.velocities.contains(entity) && world.actives.contains(entity) {
                        let (next_hero, velocity, swap) = step_hero(
                            hero,
                            world.animations.get(entity),
                            world.input,
                        );
                        world.heroes.insert(entity, next_hero);
                        world.velocities.insert(entity, velocity);
                        match swap {
                            Some(control_set) => {
                                world.animation_controls.insert(entity, control_set);
                            },
                            None => {},
                        }
                    }
                },
                None => {},
            }
            i = i + 1;
        }
    }
}

} // verus!
