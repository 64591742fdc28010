use vstd::prelude::*;
use crate::dispatcher::{runs, Dispatcher};
use crate::states::{GameState, InstanceState, OverworldState, StateError, Trans};
use crate::world::World;

verus! {

/// The states of the game, one above the other: the overworld at the root,
/// and above it, while the hero is inside one, an instance. The state on
/// top is the active one; the overworld below an instance is suspended.
#[derive(PartialEq, Eq, Copy, Clone, Debug)]
pub struct StateStack {
    pub overworld: OverworldState,
    pub instance: Option<InstanceState>,
}

impl StateStack {
    /// A stack with the overworld alone.
    pub fn new(overworld: OverworldState) -> (stack: Self)
        ensures
            stack == (StateStack { overworld, instance: None }),
    {
        StateStack { overworld, instance: None }
    }

    /// Whether an instance is the active state.
    pub open spec fn in_instance(self) -> bool {
        self.instance.is_some()
    }

    /// Whether an instance is the active state.
    pub fn is_in_instance(&self) -> (inside: bool)
        ensures
            inside == self.in_instance(),
    {
        self.instance.is_some()
    }

    /// Starts the overworld.
    pub fn start(&mut self, world: &mut World)
        requires
            old(self).overworld.hero_animations.is_some(),
            old(world).next_entity <= usize::MAX - 4,
        ensures
            OverworldState::built(
                old(self).overworld.hero_animations.unwrap(),
                *old(world),
                *final(world),
            ),
            final(self).instance == old(self).instance,
            final(self).overworld.hero_animations.is_none(),
            final(self).overworld.hero == Some(
                crate::ecs::Entity { index: old(world).next_entity },
            ),
            final(self).overworld.camera == Some(
                crate::ecs::Entity { index: (old(world).next_entity + 1) as usize },
            ),
            final(self).overworld.paused_hero == old(self).overworld.paused_hero,
    {
        self.overworld.on_start(world);
    }

    /// Suspends the overworld and enters `state` above it.
    ///
    /// From within an instance no other can be entered: that is an error,
    /// and stack and world stay as they are.
    pub fn push(&mut self, state: InstanceState, world: &mut World) -> (result: Result<
        (),
        StateError,
    >)
        ensures
            old(self).in_instance() ==> result == Err::<(), StateError>(
                StateError::AlreadyInInstance,
            ) && *final(self) == *old(self) && *final(world) == *old(world),
            !old(self).in_instance() ==> result.is_ok() && final(self).instance == Some(state)
                && final(self).overworld == (OverworldState {
                paused_hero: old(self).overworld.hero_transform(*old(world)),
                ..old(self).overworld
            }) && state.entered(*old(world), *final(world)),
    {
        if self.instance.is_some() {
            return Err(StateError::AlreadyInInstance);
        }
        self.overworld.on_pause(world);
        let mut state = state;
        state.on_start(world);
        self.instance = Some(state);
        Ok(())
    }

    /// Leaves the instance and resumes the overworld, at the position that
    /// the game state carries.
    ///
    /// Nothing lies below the overworld, so leaving it is an error; so is
    /// leaving an instance while the game state still asks for one. In both
    /// cases stack and world stay as they are.
    pub fn pop(&mut self, world: &mut World) -> (result: Result<(), StateError>)
        ensures
            match (old(self).instance, old(world).game_state) {
                (None, _) => result == Err::<(), StateError>(StateError::AtRoot) && *final(self)
                    == *old(self) && *final(world) == *old(world),
                (Some(_), GameState::Instance(_)) => result == Err::<(), StateError>(
                    StateError::NotOverworld,
                ) && *final(self) == *old(self) && *final(world) == *old(world),
                (Some(_), GameState::Overworld(position)) => result.is_ok() && *final(self) == (
                StateStack { instance: None, ..*old(self) }) && old(self).overworld.resumed(
                    *old(world),
                    *final(world),
                    position,
                ),
            },
    {
        match self.instance {
            None => Err(StateError::AtRoot),
            Some(state) => {
                match world.game_state {
                    GameState::Instance(_) => Err(StateError::NotOverworld),
                    GameState::Overworld(_) => {
                        let mut state = state;
                        state.on_stop(world);
                        self.instance = None;
                        self.overworld.on_resume(world)
                    },
                }
            },
        }
    }

    /// The world after the active state has seen the input of the tick: an
    /// instance answers the escape key, the overworld answers nothing.
    pub open spec fn heard(self, world: World) -> World {
        match self.instance {
            Some(state) => state.escaped(world),
            None => world,
        }
    }

    /// What the active state asks for when the systems have left the game
    /// in `state`.
    pub open spec fn asked(self, state: GameState) -> Trans {
        match self.instance {
            Some(_) => InstanceState::observed(state),
            None => self.overworld.observed(state),
        }
    }

    /// Whether stack `next` and world `after` are what the stack makes of
    /// the world `ticked` that the systems have left: the instance that is
    /// asked for is entered, the instance that is to be left is left and the
    /// overworld resumed, and where nothing is asked for nothing changes.
    pub open spec fn settled(self, ticked: World, next: StateStack, after: World) -> bool {
        match self.asked(ticked.game_state) {
            Trans::Nothing => next == self && after == ticked,
            Trans::Push(state) => {
                &&& next.instance == Some(state)
                &&& next.overworld == (OverworldState {
                    paused_hero: self.overworld.hero_transform(ticked),
                    ..self.overworld
                })
                &&& state.entered(ticked, after)
            },
            Trans::Pop => match ticked.game_state {
                GameState::Overworld(position) => {
                    &&& next == (StateStack { instance: None, ..self })
                    &&& self.overworld.resumed(ticked, after, position)
                },
                GameState::Instance(_) => false,
            },
        }
    }

    /// One tick of the game: the active state sees the input, the systems
    /// run once each, and the stack makes the transition that the active
    /// state asks for.
    pub fn update(&mut self, dispatcher: &Dispatcher, world: &mut World)
        ensures
            exists|ticked: World|
                (#[trigger] runs(dispatcher.order@, old(self).heard(*old(world)), ticked)) && old(
                    self,
                ).settled(ticked, *final(self), *final(world)),
    {
        let trans = match self.instance {
            Some(state) => {
                let mut state = state;
                state.handle_event(world);
                state.update(dispatcher, world)
            },
            None => self.overworld.update(dispatcher, world),
        };
        let ghost ticked = *world;
        // The overworld only asks to enter and an instance only asks to leave,
        // so neither transition can be refused here.
        match trans {
            Trans::Nothing => {},
            Trans::Push(state) => {
                let _ = self.push(state, world);
            },
            Trans::Pop => {
                let _ = self.pop(world);
            },
        }
        assert(runs(dispatcher.order@, old(self).heard(*old(world)), ticked));
    }
}

/// Escape leads back to the exit. Let the game be in an instance, with the
/// escape key held, and let the systems leave the game state as the
/// instance has set it. Then the tick ends in the overworld, the game state
/// is the overworld at the exit of the instance, and the hero stands at
/// exactly that exit.
pub proof fn lemma_escape_leads_to_exit(
    stack: StateStack,
    world: World,
    ticked: World,
    next: StateStack,
    after: World,
)
    requires
        stack.in_instance(),
        stack.overworld.hero.is_some(),
        stack.overworld.hero != stack.overworld.camera,
        world.input.escape,
        ticked.game_state == stack.heard(world).game_state,
        stack.settled(ticked, next, after),
    ensures
        !next.in_instance(),
        after.game_state == GameState::Overworld(stack.instance.unwrap().instance.exit),
        after.transforms.component(stack.overworld.hero.unwrap()).unwrap().translation
            == (crate::vector::Vector {
            x: stack.instance.unwrap().instance.exit.0,
            y: stack.instance.unwrap().instance.exit.1,
        }),
        after.bounds == Some(crate::states::overworld_bounds()),
{
    let hero = stack.overworld.hero.unwrap();
    assert(after.transforms.component(hero) == Some(
        crate::states::standing_at(stack.instance.unwrap().instance.exit, 0),
    ));
}

} // verus!
