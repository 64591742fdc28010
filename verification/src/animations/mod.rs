//! Animation handles, the per-entity bindings from animation ids to handles,
//! and the control that says which animation an entity is playing.

pub mod hero;

use vstd::prelude::*;
pub use self::hero::AnimationId as HeroAnimationId;
use crate::math::SCALE;

verus! {

/// A playable animation, resolved by whoever loaded the assets.
#[derive(PartialEq, Eq, Copy, Clone, Debug, Structural)]
pub struct AnimationHandle {
    pub id: u32,
}

/// What an animation does when it reaches its end.
#[derive(PartialEq, Eq, Copy, Clone, Debug, Structural)]
pub enum EndControl {
    /// Start over; `None` loops without end, `Some(n)` loops `n` times.
    Loop(Option<u32>),
    /// Go back to the state before the animation started.
    Normal,
    /// Keep the last frame.
    Stay,
}

/// The command an animation control carries.
#[derive(PartialEq, Eq, Copy, Clone, Debug, Structural)]
pub enum AnimationCommand {
    Start,
    Pause,
    Abort,
}

/// The nine animations of one entity, one handle for each id.
#[derive(PartialEq, Eq, Copy, Clone, Debug, Structural)]
pub struct AnimationSet {
    pub idle: AnimationHandle,
    pub go_right: AnimationHandle,
    pub go_left: AnimationHandle,
    pub go_forward: AnimationHandle,
    pub go_backward: AnimationHandle,
    pub go_right_forward: AnimationHandle,
    pub go_right_backward: AnimationHandle,
    pub go_left_backward: AnimationHandle,
    pub go_left_forward: AnimationHandle,
}

impl AnimationSet {
    /// The handle bound to `id`.
    pub open spec fn handle_of(self, id: HeroAnimationId) -> AnimationHandle {
        match id {
            HeroAnimationId::Idle => self.idle,
            HeroAnimationId::GoRight => self.go_right,
            HeroAnimationId::GoLeft => self.go_left,
            HeroAnimationId::GoForward => self.go_forward,
            HeroAnimationId::GoBackward => self.go_backward,
            HeroAnimationId::GoRightForward => self.go_right_forward,
            HeroAnimationId::GoRightBackward => self.go_right_backward,
            HeroAnimationId::GoLeftBackward => self.go_left_backward,
            HeroAnimationId::GoLeftForward => self.go_left_forward,
        }
    }

    /// Looks up the handle bound to `id`.
    pub fn get(&self, id: HeroAnimationId) -> (handle: AnimationHandle)
        ensures
            handle == self.handle_of(id),
    {
        match id {
            HeroAnimationId::Idle => self.idle,
            HeroAnimationId::GoRight => self.go_right,
            HeroAnimationId::GoLeft => self.go_left,
            HeroAnimationId::GoForward => self.go_forward,
            HeroAnimationId::GoBackward => self.go_backward,
            HeroAnimationId::GoRightForward => self.go_right_forward,
            HeroAnimationId::GoRightBackward => self.go_right_backward,
            HeroAnimationId::GoLeftBackward => self.go_left_backward,
            HeroAnimationId::GoLeftForward => self.go_left_forward,
        }
    }
}

/// The single animation an entity plays: which one, how it ends, how fast it
/// runs (in fixed-point, `SCALE` is normal speed) and the command it was
/// given.
#[derive(PartialEq, Eq, Copy, Clone, Debug, Structural)]
pub struct AnimationControlSet {
    pub id: HeroAnimationId,
    pub animation: AnimationHandle,
    pub end: EndControl,
    pub rate_multiplier: i32,
    pub command: AnimationCommand,
}

/// The control that starts `animation` under `id`, at normal speed, looping
/// without end.
pub open spec fn singleton_looping_set(
    id: HeroAnimationId,
    animation: AnimationHandle,
) -> AnimationControlSet {
    AnimationControlSet {
        id,
        animation,
        end: EndControl::Loop(None),
        rate_multiplier: SCALE,
        command: AnimationCommand::Start,
    }
}

/// Builds the control that starts one animation and loops it without end.
pub fn create_singleton_looping_set(id: HeroAnimationId, animation: &AnimationHandle) -> (set:
    AnimationControlSet)
    ensures
        set == singleton_looping_set(id, *animation),
{
    AnimationControlSet {
        id,
        animation: *animation,
        end: EndControl::Loop(None),
        rate_multiplier: SCALE,
        command: AnimationCommand::Start,
    }
}

} // verus!
