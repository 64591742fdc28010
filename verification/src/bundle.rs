//! The systems of the game, registered with their dependencies.

use vstd::prelude::*;
use crate::dispatcher::{DispatchError, DispatcherBuilder, SystemId};

verus! {

/// The systems of the game as one unit of registration.
pub struct RustymonBundle;

/// The systems of the bundle, in the order in which it registers them.
pub open spec fn bundled() -> Seq<SystemId> {
    seq![
        SystemId::HeroMovement,
        SystemId::MobMovement,
        SystemId::Movement,
        SystemId::Physics,
        SystemId::CameraTargeting,
        SystemId::Portal,
        SystemId::MobTarget,
    ]
}

/// Why the bundle cannot be registered on top of `order`, if it cannot: one
/// of its systems is there already, or the input system, which the movement
/// of the hero runs after, is not.
pub open spec fn refusal(order: Seq<SystemId>) -> Option<DispatchError> {
    if order.contains(SystemId::HeroMovement) {
        Some(DispatchError::AlreadyRegistered(SystemId::HeroMovement))
    } else if !order.contains(SystemId::Input) {
        Some(DispatchError::UnknownDependency(SystemId::Input))
    } else if order.contains(SystemId::MobMovement) {
        Some(DispatchError::AlreadyRegistered(SystemId::MobMovement))
    } else if order.contains(SystemId::Movement) {
        Some(DispatchError::AlreadyRegistered(SystemId::Movement))
    } else if order.contains(SystemId::Physics) {
        Some(DispatchError::AlreadyRegistered(SystemId::Physics))
    } else if order.contains(SystemId::CameraTargeting) {
        Some(DispatchError::AlreadyRegistered(SystemId::CameraTargeting))
    } else if order.contains(SystemId::Portal) {
        Some(DispatchError::AlreadyRegistered(SystemId::Portal))
    } else if order.contains(SystemId::MobTarget) {
        Some(DispatchError::AlreadyRegistered(SystemId::MobTarget))
    } else {
        None
    }
}

/// Finds out why the bundle cannot be registered, if it cannot.
fn check(builder: &DispatcherBuilder) -> (found: Option<DispatchError>)
    ensures
        found == refusal(builder.order@),
{
    if builder.contains(SystemId::HeroMovement) {
        Some(DispatchError::AlreadyRegistered(SystemId::HeroMovement))
    } else if !builder.contains(SystemId::Input) {
        Some(DispatchError::UnknownDependency(SystemId::Input))
    } else if builder.contains(SystemId::MobMovement) {
        Some(DispatchError::AlreadyRegistered(SystemId::MobMovement))
    } else if builder.contains(SystemId::Movement) {
        Some(DispatchError::AlreadyRegistered(SystemId::Movement))
    } else if builder.contains(SystemId::Physics) {
        Some(DispatchError::AlreadyRegistered(SystemId::Physics))
    } else if builder.contains(SystemId::CameraTargeting) {
        Some(DispatchError::AlreadyRegistered(SystemId::CameraTargeting))
    } else if builder.contains(SystemId::Portal) {
        Some(DispatchError::AlreadyRegistered(SystemId::Portal))
    } else if builder.contains(SystemId::MobTarget) {
        Some(DispatchError::AlreadyRegistered(SystemId::MobTarget))
    } else {
        None
    }
}

/// A system is among an order with one more system if it is that system or
/// was there before.
proof fn lemma_contains_push(order: Seq<SystemId>, added: SystemId, id: SystemId)
    ensures
        order.push(added).contains(id) == (order.contains(id) || added == id),
{
    let longer = order.push(added);
    if order.contains(id) {
        let i = choose|i: int| 0 <= i < order.len() && order[i] == id;
        assert(longer[i] == id);
    }
    if added == id {
        assert(longer[order.len() as int] == id);
    }
    if longer.contains(id) {
        let i = choose|i: int| 0 <= i < longer.len() && longer[i] == id;
        if i < order.len() {
            assert(order[i] == id);
        }
    }
}

impl RustymonBundle {
    /// Registers the systems of the game: the movement of the hero after
    /// the input, the movement of the mobs, the integration of velocities
    /// after both, the physics after the integration, and then the camera,
    /// the portals and the targets of the mobs.
    ///
    /// Where the input system is missing or one of the systems is there
    /// already, nothing is registered and the error says what is wrong.
    pub fn build(self, builder: &mut DispatcherBuilder) -> (result: Result<(), DispatchError>)
        requires
            old(builder).wf(),
        ensures
            final(builder).wf(),
            match refusal(old(builder).order@) {
                Some(error) => result == Err::<(), DispatchError>(error) && final(builder).order@
                    == old(builder).order@ && final(builder).dependencies@ == old(
                    builder,
                ).dependencies@,
                None => result.is_ok() && final(builder).order@ == old(builder).order@ + bundled(),
            },
    {
        match check(builder) {
            Some(error) => {
                return Err(error);
            },
            None => {},
        }
        let ghost start = builder.order@;
        // Movement
        let added = builder.add(SystemId::HeroMovement, vec![SystemId::Input]);
        proof {
            let needs = seq![SystemId::Input];
            assert(needs.drop_first().len() == 0);
            reveal_with_fuel(crate::dispatcher::first_unknown, 2);
        }
        if added.is_err() {
            return added;
        }
        proof {
            lemma_contains_push(start, SystemId::HeroMovement, SystemId::MobMovement);
        }
        // Could have a dependency on 'mob_target' but it seems ok to have one frame latency before starting to follow the target.
        let added = builder.add(SystemId::MobMovement, Vec::new());
        if added.is_err() {
            return added;
        }
        let ghost two = builder.order@;
        proof {
            lemma_contains_push(start, SystemId::HeroMovement, SystemId::Movement);
            lemma_contains_push(
                start.push(SystemId::HeroMovement),
                SystemId::MobMovement,
                SystemId::Movement,
            );
            lemma_contains_push(start, SystemId::HeroMovement, SystemId::HeroMovement);
            lemma_contains_push(
                start.push(SystemId::HeroMovement),
                SystemId::MobMovement,
                SystemId::HeroMovement,
            );
            lemma_contains_push(
                start.push(SystemId::HeroMovement),
                SystemId::MobMovement,
                SystemId::MobMovement,
            );
            let needs = seq![SystemId::HeroMovement, SystemId::MobMovement];
            assert(needs.drop_first() =~= seq![SystemId::MobMovement]);
            assert(needs.drop_first().drop_first().len() == 0);
            reveal_with_fuel(crate::dispatcher::first_unknown, 3);
            assert(crate::dispatcher::first_unknown(two, needs).is_none());
        }
        let added = builder.add(
            SystemId::Movement,
            vec![SystemId::HeroMovement, SystemId::MobMovement],
        );
        if added.is_err() {
            return added;
        }
        let ghost three = builder.order@;
        proof {
            lemma_contains_push(start, SystemId::HeroMovement, SystemId::Physics);
            lemma_contains_push(
                start.push(SystemId::HeroMovement),
                SystemId::MobMovement,
                SystemId::Physics,
            );
            lemma_contains_push(two, SystemId::Movement, SystemId::Physics);
            lemma_contains_push(two, SystemId::Movement, SystemId::Movement);
            let needs = seq![SystemId::Movement];
            assert(needs.drop_first().len() == 0);
            reveal_with_fuel(crate::dispatcher::first_unknown, 2);
            assert(crate::dispatcher::first_unknown(three, needs).is_none());
        }
        let added = builder.add(SystemId::Physics, vec![SystemId::Movement]);
        if added.is_err() {
            return added;
        }
        let ghost four = builder.order@;
        proof {
            lemma_contains_push(start, SystemId::HeroMovement, SystemId::CameraTargeting);
            lemma_contains_push(
                start.push(SystemId::HeroMovement),
                SystemId::MobMovement,
                SystemId::CameraTargeting,
            );
            lemma_contains_push(two, SystemId::Movement, SystemId::CameraTargeting);
            lemma_contains_push(three, SystemId::Physics, SystemId::CameraTargeting);
        }
        let added = builder.add(SystemId::CameraTargeting, Vec::new());
        if added.is_err() {
            return added;
        }
        let ghost five = builder.order@;
        proof {
            lemma_contains_push(start, SystemId::HeroMovement, SystemId::Portal);
            lemma_contains_push(
                start.push(SystemId::HeroMovement),
                SystemId::MobMovement,
                SystemId::Portal,
            );
            lemma_contains_push(two, SystemId::Movement, SystemId::Portal);
            lemma_contains_push(three, SystemId::Physics, SystemId::Portal);
            lemma_contains_push(four, SystemId::CameraTargeting, SystemId::Portal);
        }
        let added = builder.add(SystemId::Portal, Vec::new());
        if added.is_err() {
            return added;
        }
        let ghost six = builder.order@;
        proof {
            lemma_contains_push(start, SystemId::HeroMovement, SystemId::MobTarget);
            lemma_contains_push(
                start.push(SystemId::HeroMovement),
                SystemId::MobMovement,
                SystemId::MobTarget,
            );
            lemma_contains_push(two, SystemId::Movement, SystemId::MobTarget);
            lemma_contains_push(three, SystemId::Physics, SystemId::MobTarget);
            lemma_contains_push(four, SystemId::CameraTargeting, SystemId::MobTarget);
            lemma_contains_push(five, SystemId::Portal, SystemId::MobTarget);
        }
        let added = builder.add(SystemId::MobTarget, Vec::new());
        if added.is_err() {
            return added;
        }
        proof {
            assert(builder.order@ =~= start + bundled());
        }
        Ok(())
    }
}

} // verus!
