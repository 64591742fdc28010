//! The scheduler: systems are registered with the systems they run after,
//! and a tick runs each registered system once, in an order that honours
//! every such dependency.
//!
//! A system can only name dependencies that are registered already, so the
//! order of registration is an order in which every system runs after its
//! dependencies, and no chain of dependencies can lead back to where it
//! started. A configuration with a cycle cannot be registered: the first
//! system of the cycle to be added names one that is not there yet, and is
//! refused.

use vstd::prelude::*;
use crate::ecs::Entity;
use crate::systems::camera_targeting::transform_after_cameras;
use crate::systems::hero_movement::{control_after, hero_after, velocity_after};
use crate::systems::mob::{acquired, moved_mob, moved_velocity};
use crate::systems::physics::{moved_transform, resolved_transform};
use crate::systems::portal::triggered;
use crate::systems::{
    CameraTargetingSystem, HeroMovementSystem, MobMovementSystem, MobTargetSystem, MovementSystem,
    PhysicsSystem, PortalTriggerSystem,
};
use crate::world::World;

verus! {

/// The systems that can be scheduled.
#[derive(PartialEq, Eq, Copy, Clone, Debug, Hash, Structural)]
pub enum SystemId {
    /// Stands for the sampling of the input devices, which the application
    /// does before it starts a tick. It changes nothing in the world and is
    /// there for other systems to depend on.
    Input,
    HeroMovement,
    MobMovement,
    Movement,
    Physics,
    CameraTargeting,
    Portal,
    MobTarget,
}

/// Why a system was not registered.
#[derive(PartialEq, Eq, Copy, Clone, Debug, Structural)]
pub enum DispatchError {
    /// The system is registered already.
    AlreadyRegistered(SystemId),
    /// The system names a dependency that is not registered yet.
    UnknownDependency(SystemId),
}

/// What one run of the system `id` does to the world: `after` is a world
/// that the system can leave when it starts in `before`.
pub open spec fn effect(id: SystemId, before: World, after: World) -> bool {
    match id {
        SystemId::Input => after == before,
        SystemId::HeroMovement => {
            &&& forall|e: Entity| #[trigger] after.heroes.component(e) == hero_after(before, e)
            &&& forall|e: Entity|
                #[trigger] after.velocities.component(e) == velocity_after(before, e)
            &&& forall|e: Entity|
                #[trigger] after.animation_controls.component(e) == control_after(before, e)
            &&& after == (World {
                heroes: after.heroes,
                velocities: after.velocities,
                animation_controls: after.animation_controls,
                ..before
            })
        },
        SystemId::MobMovement => {
            &&& forall|e: Entity| #[trigger] after.mobs.component(e) == moved_mob(before, e)
            &&& forall|e: Entity|
                #[trigger] after.velocities.component(e) == moved_velocity(before, e)
            &&& after == (World { mobs: after.mobs, velocities: after.velocities, ..before })
        },
        SystemId::Movement => {
            &&& forall|e: Entity|
                #[trigger] after.transforms.component(e) == moved_transform(before, e)
            &&& after == (World { transforms: after.transforms, ..before })
        },
        SystemId::Physics => {
            &&& forall|e: Entity|
                #[trigger] after.transforms.component(e) == resolved_transform(before, e)
            &&& forall|e: Entity| !#[trigger] after.collisions.has(e)
            &&& after == (World {
                transforms: after.transforms,
                collisions: after.collisions,
                ..before
            })
        },
        SystemId::CameraTargeting => {
            &&& forall|e: Entity|
                #[trigger] after.transforms.component(e) == transform_after_cameras(
                    before,
                    before.cameras.span() as nat,
                    e,
                )
            &&& after == (World { transforms: after.transforms, ..before })
        },
        SystemId::Portal => {
            &&& after.game_state == triggered(before)
            &&& after == (World { game_state: after.game_state, ..before })
        },
        SystemId::MobTarget => {
            &&& forall|e: Entity| #[trigger] after.mobs.component(e) == acquired(before, e)
            &&& after == (World { mobs: after.mobs, ..before })
        },
    }
}

/// Whether `trace` lists the worlds of a run of `order`: the world before
/// the first system, and then the world that each system leaves.
pub open spec fn traces(order: Seq<SystemId>, trace: Seq<World>) -> bool {
    &&& trace.len() == order.len() + 1
    &&& forall|i: int|
        0 <= i < order.len() ==> effect(order[i], #[trigger] trace[i], trace[i + 1])
}

/// Whether running the systems of `order`, one after the other, each once,
/// can take the world from `before` to `after`.
pub open spec fn runs(order: Seq<SystemId>, before: World, after: World) -> bool {
    exists|trace: Seq<World>|
        #[trigger] traces(order, trace) && trace.first() == before && trace.last() == after
}

/// Runs one system.
pub fn run_system(id: SystemId, world: &mut World)
    ensures
        effect(id, *old(world), *final(world)),
{
    match id {
        SystemId::Input => {},
        SystemId::HeroMovement => {
            let mut system = HeroMovementSystem;
            system.run(world);
        },
        SystemId::MobMovement => {
            let mut system = MobMovementSystem;
            system.run(world);
        },
        SystemId::Movement => {
            let mut system = MovementSystem;
            system.run(world);
        },
        SystemId::Physics => {
            let mut system = PhysicsSystem;
            system.run(world);
        },
        SystemId::CameraTargeting => {
            let mut system = CameraTargetingSystem;
            system.run(world);
        },
        SystemId::Portal => {
            let mut system = PortalTriggerSystem;
            system.run(world);
        },
        SystemId::MobTarget => {
            let mut system = MobTargetSystem;
            system.run(world);
        },
    }
}

/// Whether each system of `order` occurs once, and after all the systems
/// that `dependencies` lists for it.
pub open spec fn ordered(order: Seq<SystemId>, dependencies: Seq<Vec<SystemId>>) -> bool {
    &&& order.len() == dependencies.len()
    &&& order.no_duplicates()
    &&& forall|i: int, k: int|
        0 <= i < order.len() && 0 <= k < dependencies[i]@.len() ==> order.take(i).contains(
            #[trigger] dependencies[i]@[k],
        )
}

/// Collects systems and their dependencies.
pub struct DispatcherBuilder {
    pub order: Vec<SystemId>,
    pub dependencies: Vec<Vec<SystemId>>,
}

/// Runs the registered systems, once each for every tick.
pub struct Dispatcher {
    pub order: Vec<SystemId>,
    pub dependencies: Vec<Vec<SystemId>>,
}

/// Looks for `id` among `order`.
fn is_registered(order: &Vec<SystemId>, id: SystemId) -> (found: bool)
    ensures
        found == order@.contains(id),
{
    let mut i: usize = 0;
    while i < order.len()
        invariant
            i <= order@.len(),
            forall|j: int| 0 <= j < i ==> order@[j] != id,
        decreases order@.len() - i,
    {
        if order[i] == id {
            assert(order@[i as int] == id);
            return true;
        }
        i = i + 1;
    }
    false
}

/// The first of `dependencies` that is not among `order`.
pub open spec fn first_unknown(order: Seq<SystemId>, dependencies: Seq<SystemId>) -> Option<
    SystemId,
>
    decreases dependencies.len(),
{
    if dependencies.len() == 0 {
        None
    } else if !order.contains(dependencies.first()) {
        Some(dependencies.first())
    } else {
        first_unknown(order, dependencies.drop_first())
    }
}

/// Where no dependency is unknown, each of them is registered.
pub proof fn lemma_all_known(order: Seq<SystemId>, dependencies: Seq<SystemId>)
    requires
        first_unknown(order, dependencies).is_none(),
    ensures
        forall|k: int| 0 <= k < dependencies.len() ==> order.contains(#[trigger] dependencies[k]),
    decreases dependencies.len(),
{
    if dependencies.len() > 0 {
        lemma_all_known(order, dependencies.drop_first());
        assert forall|k: int| 0 <= k < dependencies.len() implies order.contains(
            #[trigger] dependencies[k],
        ) by {
            if k > 0 {
                assert(dependencies[k] == dependencies.drop_first()[k - 1]);
            }
        }
    }
}

/// Looks for the first dependency that is not registered.
fn find_unknown(order: &Vec<SystemId>, dependencies: &Vec<SystemId>) -> (unknown: Option<SystemId>)
    ensures
        unknown == first_unknown(order@, dependencies@),
{
    let mut k: usize = dependencies.len();
    let mut unknown: Option<SystemId> = None;
    while k > 0
        invariant
            k <= dependencies@.len(),
            unknown == first_unknown(order@, dependencies@.skip(k as int)),
        decreases k,
    {
        k = k - 1;
        proof {
            assert(dependencies@.skip(k as int).drop_first() == dependencies@.skip(k + 1));
            assert(dependencies@.skip(k as int).first() == dependencies@[k as int]);
        }
        if !is_registered(order, dependencies[k]) {
            unknown = Some(dependencies[k]);
        }
    }
    proof {
        assert(dependencies@.skip(0) == dependencies@);
    }
    unknown
}

impl DispatcherBuilder {
    /// Whether every registered system comes after its dependencies.
    pub open spec fn wf(&self) -> bool {
        ordered(self.order@, self.dependencies@)
    }

    /// A builder without systems.
    pub fn new() -> (builder: Self)
        ensures
            builder.wf(),
            builder.order@.len() == 0,
    {
        DispatcherBuilder { order: Vec::new(), dependencies: Vec::new() }
    }

    /// Whether `system` is registered.
    pub fn contains(&self, system: SystemId) -> (found: bool)
        ensures
            found == self.order@.contains(system),
    {
        is_registered(&self.order, system)
    }

    /// Registers `system` to run after `dependencies`.
    ///
    /// A system that is registered already is refused, and so is one that
    /// names a dependency that is not registered yet; the error names the
    /// system or the first such dependency, and the builder stays as it is.
    pub fn add(&mut self, system: SystemId, dependencies: Vec<SystemId>) -> (result: Result<
        (),
        DispatchError,
    >)
        requires
            old(self).wf(),
        ensures
            final(self).wf(),
            old(self).order@.contains(system) ==> result == Err::<(), DispatchError>(
                DispatchError::AlreadyRegistered(system),
            ),
            !old(self).order@.contains(system) && first_unknown(
                old(self).order@,
                dependencies@,
            ).is_some() ==> result == Err::<(), DispatchError>(
                DispatchError::UnknownDependency(
                    first_unknown(old(self).order@, dependencies@).unwrap(),
                ),
            ),
            !old(self).order@.contains(system) && first_unknown(
                old(self).order@,
                dependencies@,
            ).is_none() ==> result.is_ok(),
            result.is_ok() ==> final(self).order@ == old(self).order@.push(system),
            result.is_ok() ==> final(self).dependencies@ == old(self).dependencies@.push(
                dependencies,
            ),
            result.is_err() ==> final(self).order@ == old(self).order@,
            result.is_err() ==> final(self).dependencies@ == old(self).dependencies@,
    {
        if is_registered(&self.order, system) {
            return Err(DispatchError::AlreadyRegistered(system));
        }
        match find_unknown(&self.order, &dependencies) {
            Some(unknown) => {
                return Err(DispatchError::UnknownDependency(unknown));
            },
            None => {},
        }
        proof {
            lemma_all_known(self.order@, dependencies@);
            lemma_ordered_push(self.order@, self.dependencies@, system, dependencies);
        }
        self.order.push(system);
        self.dependencies.push(dependencies);
        Ok(())
    }

    /// The dispatcher that runs the registered systems in the order of their
    /// registration.
    pub fn build(self) -> (dispatcher: Dispatcher)
        requires
            self.wf(),
        ensures
            dispatcher.wf(),
            dispatcher.order@ == self.order@,
            dispatcher.dependencies@ == self.dependencies@,
    {
        Dispatcher { order: self.order, dependencies: self.dependencies }
    }
}

/// An order stays one in which every system follows its dependencies when a
/// new system is added at the end whose dependencies are all there.
pub proof fn lemma_ordered_push(
    order: Seq<SystemId>,
    dependencies: Seq<Vec<SystemId>>,
    system: SystemId,
    needs: Vec<SystemId>,
)
    requires
        ordered(order, dependencies),
        !order.contains(system),
        forall|k: int| 0 <= k < needs@.len() ==> order.contains(#[trigger] needs@[k]),
    ensures
        ordered(order.push(system), dependencies.push(needs)),
{
    let order2 = order.push(system);
    let dependencies2 = dependencies.push(needs);
    assert(order2.no_duplicates()) by {
        assert forall|i: int, j: int|
            0 <= i < order2.len() && 0 <= j < order2.len() && i != j implies order2[i]
            != order2[j] by {
            if i < order.len() {
                assert(order.contains(order[i]));
            }
            if j < order.len() {
                assert(order.contains(order[j]));
            }
        }
    }
    assert forall|i: int, k: int|
        0 <= i < order2.len() && 0 <= k < dependencies2[i]@.len() implies order2.take(i).contains(
        #[trigger] dependencies2[i]@[k],
    ) by {
        if i < order.len() {
            assert(order2.take(i) == order.take(i));
            assert(dependencies2[i] == dependencies[i]);
        } else {
            assert(order2.take(i) == order);
        }
    }
}

impl Dispatcher {
    /// Whether every system comes after its dependencies.
    pub open spec fn wf(&self) -> bool {
        ordered(self.order@, self.dependencies@)
    }

    /// One tick: runs every registered system once, in the order of
    /// registration.
    pub fn tick(&self, world: &mut World)
        ensures
            runs(self.order@, *old(world), *final(world)),
    {
        let ghost mut trace: Seq<World> = seq![*world];
        let mut i: usize = 0;
        while i < self.order.len()
            invariant
                i <= self.order@.len(),
                traces(self.order@.take(i as int), trace),
                trace.first() == *old(world),
                trace.last() == *world,
            decreases self.order@.len() - i,
        {
            run_system(self.order[i], world);
            proof {
                let longer = trace.push(*world);
                let step = self.order@.take(i + 1);
                assert forall|k: int| 0 <= k < step.len() implies effect(
                    step[k],
                    #[trigger] longer[k],
                    longer[k + 1],
                ) by {
                    if k < i {
                        assert(step[k] == self.order@.take(i as int)[k]);
                        assert(longer[k] == trace[k]);
                        assert(longer[k + 1] == trace[k + 1]);
                    }
                }
                trace = longer;
            }
            i = i + 1;
        }
        proof {
            assert(self.order@.take(self.order@.len() as int) == self.order@);
            assert(traces(self.order@, trace));
        }
    }
}

/// Whether the system at position `i` of `order` names the system at
/// position `j` as a dependency.
pub open spec fn depends_on(
    order: Seq<SystemId>,
    dependencies: Seq<Vec<SystemId>>,
    i: int,
    j: int,
) -> bool {
    0 <= i < order.len() && 0 <= j < order.len() && dependencies[i]@.contains(order[j])
}

/// Whether each position of `chain` names the next as a dependency.
pub open spec fn is_chain(
    order: Seq<SystemId>,
    dependencies: Seq<Vec<SystemId>>,
    chain: Seq<int>,
) -> bool {
    forall|k: int|
        0 <= k < chain.len() - 1 ==> depends_on(
            order,
            dependencies,
            #[trigger] chain[k],
            chain[k + 1],
        )
}

/// A system that names another as a dependency stands after it.
pub proof fn lemma_dependency_stands_before(
    order: Seq<SystemId>,
    dependencies: Seq<Vec<SystemId>>,
    i: int,
    j: int,
)
    requires
        ordered(order, dependencies),
        depends_on(order, dependencies, i, j),
    ensures
        j < i,
{
    let k = choose|k: int| 0 <= k < dependencies[i]@.len() && dependencies[i]@[k] == order[j];
    assert(order.take(i).contains(dependencies[i]@[k]));
    let found = choose|found: int| 0 <= found < i && order.take(i)[found] == order[j];
    assert(order[found] == order[j]);
}

/// Dependencies have no cycles: along a chain of dependencies the positions
/// fall, so no chain leads back to the system that it started from.
pub proof fn lemma_no_cycle(
    order: Seq<SystemId>,
    dependencies: Seq<Vec<SystemId>>,
    chain: Seq<int>,
)
    requires
        ordered(order, dependencies),
        is_chain(order, dependencies, chain),
        chain.len() >= 2,
    ensures
        chain.last() < chain.first(),
    decreases chain.len(),
{
    let n = chain.len() as int;
    assert(depends_on(order, dependencies, chain[n - 2], chain[n - 2 + 1]));
    lemma_dependency_stands_before(order, dependencies, chain[n - 2], chain[n - 1]);
    if n > 2 {
        let shorter = chain.drop_last();
        assert forall|k: int| 0 <= k < shorter.len() - 1 implies depends_on(
            order,
            dependencies,
            #[trigger] shorter[k],
            shorter[k + 1],
        ) by {
            assert(depends_on(order, dependencies, chain[k], chain[k + 1]));
        }
        lemma_no_cycle(order, dependencies, shorter);
    }
}

} // verus!
