//! The overworld, the instances entered from it, and the order to go from
//! one to the other.

mod instance;
mod overworld;
mod stack;

use vstd::prelude::*;
pub use self::instance::{placed, standing_at, Instance, InstanceState};
pub use self::overworld::{house, house_portal, overworld_bounds, OverworldState};
pub use self::stack::{lemma_escape_leads_to_exit, StateStack};

verus! {

/// Represent an order to transition into another states.
/// Each state will test the current value of this ressource.
/// If it doesn't match the one they are attached to then it has to
/// transition to the requested one.
#[derive(PartialEq, Eq, Copy, Clone, Debug)]
pub enum GameState {
    /// Should transition to the overworld state and set the players at the given position.
    Overworld((i32, i32)),
    /// Should transition to the instance state. Inside the provided instance.
    Instance(Instance),
}

impl Default for GameState {
    fn default() -> (state: Self)
        ensures
            state == GameState::Overworld((0i32, 0i32)),
    {
        GameState::Overworld((0, 0))
    }
}

/// What a state asks of the state stack after a tick.
#[derive(PartialEq, Eq, Copy, Clone, Debug)]
pub enum Trans {
    /// Stay in the state.
    Nothing,
    /// Suspend the state and enter the given one above it.
    Push(InstanceState),
    /// Leave the state and resume the one below it.
    Pop,
}

/// A transition that the state stack cannot make.
#[derive(PartialEq, Eq, Copy, Clone, Debug, Structural)]
pub enum StateError {
    /// An instance was to be entered from within an instance.
    AlreadyInInstance,
    /// The overworld was to be left, and there is nothing below it.
    AtRoot,
    /// The overworld was to be resumed while the game state asks for an
    /// instance.
    NotOverworld,
}

} // verus!
