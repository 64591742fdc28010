use vstd::prelude::*;
use crate::ecs::Entity;

verus! {

/// A roaming actor that chases what comes close and goes home when it has
/// strayed too far.
#[derive(PartialEq, Eq, Copy, Clone, Debug)]
pub struct Mob {
    /// The position where the mob was spawned, and where it goes home to.
    pub spawn: (i32, i32),
    /// The squared distance from its spawn at which the mobs resets its position.
    pub squared_reset_threshold: i64,
    /// Is the mob resetting.
    pub resetting: bool,
    /// The currently targeted entity.
    pub target: Option<Entity>,
    /// The squared distance from which it starts targetting an entity.
    pub squared_target_threshold: i64,
}

impl Mob {
    /// A mob at rest at its spawn point `(x, y)`. The two thresholds are
    /// distances; the mob keeps their squares.
    pub fn new(x: i32, y: i32, reset_threshold: i32, target_threshold: i32) -> (mob: Mob)
        ensures
            mob.spawn == (x, y),
            mob.squared_reset_threshold as int == reset_threshold * reset_threshold,
            mob.squared_target_threshold as int == target_threshold * target_threshold,
            !mob.resetting,
            mob.target.is_none(),
    {
        assert(0 <= reset_threshold * reset_threshold <= 2147483648 * 2147483648)
            by (nonlinear_arith)
            requires
                -2147483648 <= reset_threshold <= 2147483647,
        ;
        assert(0 <= target_threshold * target_threshold <= 2147483648 * 2147483648)
            by (nonlinear_arith)
            requires
                -2147483648 <= target_threshold <= 2147483647,
        ;
        Mob {
            spawn: (x, y),
            squared_reset_threshold: (reset_threshold as i64) * (reset_threshold as i64),
            resetting: false,
            target: None,
            squared_target_threshold: (target_threshold as i64) * (target_threshold as i64),
        }
    }

    /// A mob never chases while it is on its way home.
    pub open spec fn consistent(self) -> bool {
        self.resetting ==> self.target.is_none()
    }
}

} // verus!
