use vstd::prelude::*;
use crate::animations::HeroAnimationId;

verus! {

/// The player's character.
#[derive(PartialEq, Eq, Copy, Clone, Debug, Structural)]
pub struct Hero {
    /// The animation that was last started, so that it is not started again.
    pub current_animation_id: Option<HeroAnimationId>,
}

impl Hero {
    /// A hero that has not started any animation yet.
    pub fn new() -> (hero: Hero)
        ensures
            hero.current_animation_id.is_none(),
    {
        Hero { current_animation_id: None }
    }
}

} // verus!
