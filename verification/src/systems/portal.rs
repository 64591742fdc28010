use vstd::prelude::*;
use crate::components::{Active, Hero, Transform};
use crate::ecs::{Entity, Storage};
use crate::shapes::Cuboid;
use crate::states::GameState;
use crate::vector::Vector;
use crate::world::World;

verus! {

/// Whether `hero` is an active hero that stands in `zone` around `center`.
pub open spec fn stands_in(
    heroes: Storage<Hero>,
    transforms: Storage<Transform>,
    actives: Storage<Active>,
    center: Vector,
    zone: Cuboid,
    hero: Entity,
) -> bool {
    &&& heroes.has(hero)
    &&& transforms.has(hero)
    &&& actives.has(hero)
    &&& zone.covers(center, transforms.component(hero).unwrap().translation)
}

/// Whether one of the entities below index `n` is an active hero that
/// stands in `zone` around `center`.
pub open spec fn occupied(
    heroes: Storage<Hero>,
    transforms: Storage<Transform>,
    actives: Storage<Active>,
    center: Vector,
    zone: Cuboid,
    n: nat,
) -> bool
    decreases n,
{
    if n == 0 {
        false
    } else {
        stands_in(heroes, transforms, actives, center, zone, Entity { index: (n - 1) as usize })
            || occupied(heroes, transforms, actives, center, zone, (n - 1) as nat)
    }
}

/// Whether `portal` is an active portal with a position and a hero in its
/// trigger zone.
pub open spec fn entered(world: World, portal: Entity) -> bool {
    &&& world.portals.has(portal)
    &&& world.transforms.has(portal)
    &&& world.actives.has(portal)
    &&& occupied(
        world.heroes,
        world.transforms,
        world.actives,
        world.transforms.component(portal).unwrap().translation,
        world.portals.component(portal).unwrap().trigger_zone,
        world.heroes.span() as nat,
    )
}

/// The first of the entities below index `n` that is an entered portal.
pub open spec fn first_entered(world: World, n: nat) -> Option<Entity>
    decreases n,
{
    if n == 0 {
        None
    } else {
        match first_entered(world, (n - 1) as nat) {
            Some(portal) => Some(portal),
            None => if entered(world, Entity { index: (n - 1) as usize }) {
                Some(Entity { index: (n - 1) as usize })
            } else {
                None
            },
        }
    }
}

/// The game state after the portals are checked. In the overworld, with the
/// "use" action held, the first entered portal sends the game into its
/// instance. In every other case the state stays as it is.
pub open spec fn triggered(world: World) -> GameState {
    match world.game_state {
        GameState::Overworld(_) => if world.input.interact {
            match first_entered(world, world.portals.span() as nat) {
                Some(portal) => GameState::Instance(world.portals.component(portal).unwrap().instance),
                None => world.game_state,
            }
        } else {
            world.game_state
        },
        GameState::Instance(_) => world.game_state,
    }
}

/// Looks for an active hero in `zone` around `center`.
fn any_hero_inside(
    heroes: &Storage<Hero>,
    transforms: &Storage<Transform>,
    actives: &Storage<Active>,
    center: &Vector,
    zone: &Cuboid,
) -> (found: bool)
    ensures
        found == occupied(*heroes, *transforms, *actives, *center, *zone, heroes.span() as nat),
{
    let n: usize = heroes.len();
    let mut i: usize = 0;
    while i < n
        invariant
            i <= n,
            n as int == heroes.span(),
            !occupied(*heroes, *transforms, *actives, *center, *zone, i as nat),
        decreases n - i,
    {
        let entity = Entity { index: i };
        if heroes.contains(entity) && actives.contains(entity) {
            match transforms.get(entity) {
                Some(transform_h) => {
                    if zone.contains_point(center, &transform_h.translation) {
                        proof {
                            lemma_occupied_from(
                                *heroes,
                                *transforms,
                                *actives,
                                *center,
                                *zone,
                                (i + 1) as nat,
                                n as nat,
                            );
                        }
                        return true;
                    }
                },
                None => {},
            }
        }
        i = i + 1;
    }
    false
}

/// A zone that is occupied by one of the first `m` entities is occupied by
/// one of the first `n`, for every `n` from `m` on.
pub proof fn lemma_occupied_from(
    heroes: Storage<Hero>,
    transforms: Storage<Transform>,
    actives: Storage<Active>,
    center: Vector,
    zone: Cuboid,
    m: nat,
    n: nat,
)
    requires
        m <= n,
        occupied(heroes, transforms, actives, center, zone, m),
    ensures
        occupied(heroes, transforms, actives, center, zone, n),
    decreases n,
{
    if m < n {
        lemma_occupied_from(heroes, transforms, actives, center, zone, m, (n - 1) as nat);
    }
}

/// Whether the portal at `entity` is entered.
fn is_entered(world: &World, entity: Entity) -> (open: bool)
    ensures
        open == entered(*world, entity),
{
    match (world.portals.get(entity), world.transforms.get(entity)) {
        (Some(portal), Some(transform_p)) => {
            world.actives.contains(entity) && any_hero_inside(
                &world.heroes,
                &world.transforms,
                &world.actives,
                &transform_p.translation,
                &portal.trigger_zone,
            )
        },
        _ => false,
    }
}

/// Check if a portal is being triggered.
/// If so then it will trigger a state change.
pub struct PortalTriggerSystem;

impl PortalTriggerSystem {
    /// Sends the game into the instance of the first portal that a hero
    /// stands in, if the game is in the overworld and the action is held.
    pub fn run(&mut self, world: &mut World)
        ensures
            final(world).game_state == triggered(*old(world)),
            *final(world) == (World { game_state: final(world).game_state, ..*old(world) }),
    {
        match world.game_state {
            GameState::Overworld(_) => {},
            GameState::Instance(_) => {
                return ;
            },
        }
        if !world.input.interact {
            return ;
        }
        let n: usize = world.portals.len();
        let mut i: usize = 0;
        while i < n
            invariant
                i <= n,
                n as int == world.portals.span(),
                *world == *old(world),
                world.game_state is Overworld,
                world.input.interact,
                first_entered(*world, i as nat).is_none(),
            decreases n - i,
        {
            let entity = Entity { index: i };
            if is_entered(world, entity) {
                match world.portals.get(entity) {
                    Some(portal) => {
                        proof {
                            assert(first_entered(*world, (i + 1) as nat) == Some(entity));
                            lemma_first_entered_stays(*world, (i + 1) as nat, n as nat);
                        }
                        world.game_state = GameState::Instance(portal.instance);
                        return ;
                    },
                    None => {},
                }
            }
            i = i + 1;
        }
    }
}

/// The first entered portal among the first `m` entities is the first among
/// the first `n`, for every `n` from `m` on.
pub proof fn lemma_first_entered_stays(world: World, m: nat, n: nat)
    requires
        m <= n,
        first_entered(world, m).is_some(),
    ensures
        first_entered(world, n) == first_entered(world, m),
    decreases n,
{
    if m < n {
        lemma_first_entered_stays(world, m, (n - 1) as nat);
    }
}

/// A press is answered once: after the system has sent the game into an
/// instance, running it again changes nothing, whatever the input.
pub proof fn lemma_triggered_once(world: World, later: World)
    requires
        later.game_state == triggered(world),
        triggered(world) != world.game_state,
    ensures
        triggered(later) == later.game_state,
{
}

} // verus!
