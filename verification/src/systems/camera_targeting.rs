use vstd::prelude::*;
use crate::components::Transform;
use crate::ecs::Entity;
use crate::math::{div_away, div_round_away, lemma_div_away_bounds};
use crate::vector::{norm_squared, scaled, Vector};
use crate::world::World;

verus! {

/// The squared distance to its target up to which a camera stays where it
/// is.
pub const MAX_TARGET_DISTANCE: i64 = 2500000000;

/// The part of the way to its target that a camera covers in one tick, in
/// fixed-point: a hundredth.
pub const MAX_CAMERA_LERP_FACTOR: i32 = 10;

/// The point on the way from `from` to `to` that lies the lerp factor of the
/// way along, on each axis rounded away from `from`.
pub open spec fn lerped(from: Vector, to: Vector) -> Vector {
    Vector {
        x: (from.x + scaled(to.x - from.x, MAX_CAMERA_LERP_FACTOR as int)) as i32,
        y: (from.y + scaled(to.y - from.y, MAX_CAMERA_LERP_FACTOR as int)) as i32,
    }
}

/// Where a camera at `camera` goes when it follows a target at `target`:
/// part of the way towards the target if the target is beyond the dead
/// zone, nowhere (`None`) if it is within.
pub open spec fn followed(camera: Vector, target: Vector) -> Option<Vector> {
    if camera.distance_squared_to(target) > MAX_TARGET_DISTANCE {
        Some(lerped(camera, target))
    } else {
        None
    }
}

/// One coordinate of the way to the target: the step taken points towards
/// the target, does not pass it, and is not zero unless the camera is
/// already there.
pub proof fn lemma_lerp_step(from: int, to: int)
    ensures
        to > from ==> 0 < scaled(to - from, MAX_CAMERA_LERP_FACTOR as int) <= to - from,
        to < from ==> to - from <= scaled(to - from, MAX_CAMERA_LERP_FACTOR as int) < 0,
        to == from ==> scaled(to - from, MAX_CAMERA_LERP_FACTOR as int) == 0,
{
    let d = to - from;
    let q = div_away(d * 10, 1000);
    lemma_div_away_bounds(d * 10, 1000);
    if d > 0 {
        assert(q <= d) by (nonlinear_arith)
            requires
                (q - 1) * 1000 < d * 10,
                d > 0,
        ;
    } else if d < 0 {
        assert(q >= d) by (nonlinear_arith)
            requires
                (q + 1) * 1000 > d * 10,
                d < 0,
        ;
    }
}

/// A camera that follows comes strictly closer to its target and does not
/// pass it: on each axis the new position lies between the old one and the
/// target, and the squared distance to the target shrinks. A camera within
/// the dead zone does not follow at all.
pub proof fn lemma_follow_converges(camera: Vector, target: Vector)
    ensures
        camera.distance_squared_to(target) <= MAX_TARGET_DISTANCE ==> followed(
            camera,
            target,
        ).is_none(),
        camera.distance_squared_to(target) > MAX_TARGET_DISTANCE ==> ({
            let next = followed(camera, target).unwrap();
            &&& next.x == camera.x + scaled(target.x - camera.x, MAX_CAMERA_LERP_FACTOR as int)
            &&& next.y == camera.y + scaled(target.y - camera.y, MAX_CAMERA_LERP_FACTOR as int)
            &&& (camera.x <= next.x <= target.x || target.x <= next.x <= camera.x)
            &&& (camera.y <= next.y <= target.y || target.y <= next.y <= camera.y)
            &&& next.distance_squared_to(target) < camera.distance_squared_to(target)
        }),
{
    if camera.distance_squared_to(target) > MAX_TARGET_DISTANCE {
        let next = lerped(camera, target);
        lemma_lerp_step(camera.x as int, target.x as int);
        lemma_lerp_step(camera.y as int, target.y as int);
        let dx = target.x - camera.x;
        let dy = target.y - camera.y;
        let ex = target.x - next.x;
        let ey = target.y - next.y;
        assert(ex * ex <= dx * dx && (dx != 0 ==> ex * ex < dx * dx)) by (nonlinear_arith)
            requires
                (dx > 0 && 0 <= ex < dx) || (dx < 0 && dx < ex <= 0) || (dx == 0 && ex == 0),
        ;
        assert(ey * ey <= dy * dy && (dy != 0 ==> ey * ey < dy * dy)) by (nonlinear_arith)
            requires
                (dy > 0 && 0 <= ey < dy) || (dy < 0 && dy < ey <= 0) || (dy == 0 && ey == 0),
        ;
        assert(dx != 0 || dy != 0) by {
            if dx == 0 && dy == 0 {
                assert(norm_squared(dx, dy) == 0) by (nonlinear_arith)
                    requires
                        dx == 0,
                        dy == 0,
                        norm_squared(dx, dy) == dx * dx + dy * dy,
                ;
            }
        }
    }
}

/// Where a camera goes: `Some` new position when both transforms are there
/// and the target is beyond the dead zone, `None` when the camera stays.
pub fn compute_new_camera_position(
    cam_trans: Option<&Transform>,
    target_trans: Option<&Transform>,
) -> (moved: Option<Vector>)
    ensures
        moved == match (cam_trans, target_trans) {
            (Some(cam), Some(target)) => followed(cam.translation, target.translation),
            _ => None,
        },
{
    match (cam_trans, target_trans) {
        (Some(cam_trans), Some(target_trans)) => {
            follow(&cam_trans.translation, &target_trans.translation)
        },
        _ => None,
    }
}

/// The soft-follow rule: a camera at `camera` whose target is at `target`
/// stays where it is while the target is within the dead zone, and
/// otherwise moves a fixed part of the way towards it.
pub fn follow(camera: &Vector, target: &Vector) -> (moved: Option<Vector>)
    ensures
        moved == followed(*camera, *target),
{
    let distance = camera.distance_squared(target);
    if distance as i128 > MAX_TARGET_DISTANCE as i128 {
        proof {
            lemma_follow_converges(*camera, *target);
        }
        let step_x: i128 = div_round_away((target.x as i128 - camera.x as i128) * 10, 1000);
        let step_y: i128 = div_round_away((target.y as i128 - camera.y as i128) * 10, 1000);
        Some(
            Vector { x: (camera.x as i128 + step_x) as i32, y: (camera.y as i128 + step_y) as i32 },
        )
    } else {
        None
    }
}

/// Whether the camera system handles `camera`: an active camera whose
/// target is active too.
pub open spec fn follows(world: World, camera: Entity) -> bool {
    &&& world.cameras.has(camera)
    &&& world.camera_targets.has(camera)
    &&& world.actives.has(camera)
    &&& world.actives.has(world.camera_targets.component(camera).unwrap().entity)
}

/// The transform of a camera after it has followed: moved in the plane to
/// where the rule says, or untouched where the rule says to stay or either
/// transform is missing.
pub open spec fn followed_transform(camera: Option<Transform>, target: Option<Transform>) -> Option<
    Transform,
> {
    match (camera, target) {
        (Some(cam), Some(tgt)) => match followed(cam.translation, tgt.translation) {
            Some(translation) => Some(Transform { translation, z: cam.z }),
            None => Some(cam),
        },
        _ => camera,
    }
}

/// The transform of `entity` once the cameras below index `n` have
/// followed, in the order of their indices. A camera sees its target where
/// the cameras before it have left it.
pub open spec fn transform_after_cameras(world: World, n: nat, entity: Entity) -> Option<
    Transform,
>
    decreases n,
{
    if n == 0 {
        world.transforms.component(entity)
    } else {
        let camera = Entity { index: (n - 1) as usize };
        if entity == camera && follows(world, camera) {
            followed_transform(
                transform_after_cameras(world, (n - 1) as nat, camera),
                transform_after_cameras(
                    world,
                    (n - 1) as nat,
                    world.camera_targets.component(camera).unwrap().entity,
                ),
            )
        } else {
            transform_after_cameras(world, (n - 1) as nat, entity)
        }
    }
}

/// Make cameras follow their target.
pub struct CameraTargetingSystem;

impl CameraTargetingSystem {
    /// Lets every active camera with an active target follow it, one
    /// camera after the other in the order of their indices.
    pub fn run(&mut self, world: &mut World)
        ensures
            forall|e: Entity|
                final(world).transforms.component(e) == transform_after_cameras(
                    *old(world),
                    old(world).cameras.span() as nat,
                    e,
                ),
            *final(world) == (World { transforms: final(world).transforms, ..*old(world) }),
    {
        let n: usize = world.cameras.len();
        let mut i: usize = 0;
        while i < n
            invariant
                i <= n,
                n as int == old(world).cameras.span(),
                *world == (World { transforms: world.transforms, ..*old(world) }),
                forall|e: Entity|
                    world.transforms.component(e) == transform_after_cameras(
                        *old(world),
                        i as nat,
                        e,
                    ),
            decreases n - i,
        {
            let entity = Entity { index: i };
            if world.cameras.contains(entity) && world.actives.contains(entity) {
                match world.camera_targets.get(entity) {
                    Some(target) => {
                        if world.actives.contains(target.entity) {
                            let cam_trans = world.transforms.get(entity);
                            let target_trans = world.transforms.get(target.entity);
                            let new_cam_position = compute_new_camera_position(
                                cam_trans.as_ref(),
                                target_trans.as_ref(),
                            );
                            match (new_cam_position, cam_trans) {
                                (Some(new_cam_position), Some(cam_trans)) => {
                                    world.transforms.insert(
                                        entity,
                                        Transform { translation: new_cam_position, z: cam_trans.z },
                                    );
                                },
                                _ => {},
                            }
                        }
                    },
                    None => {},
                }
            }
            i = i + 1;
        }
    }
}

/// Where one camera alone follows, the system moves that camera by the
/// follow rule, from where it and its target stood before the tick, and
/// leaves every other entity where it is.
pub proof fn lemma_single_camera(world: World, camera: Entity, n: nat, entity: Entity)
    requires
        forall|e: Entity| e != camera ==> !follows(world, e),
        n <= usize::MAX,
    ensures
        transform_after_cameras(world, n, entity) == if entity == camera && camera.index < n
            && follows(world, camera) {
            followed_transform(
                world.transforms.component(camera),
                world.transforms.component(world.camera_targets.component(camera).unwrap().entity),
            )
        } else {
            world.transforms.component(entity)
        },
    decreases n,
{
    if n > 0 {
        let current = Entity { index: (n - 1) as usize };
        lemma_single_camera(world, camera, (n - 1) as nat, entity);
        if current != camera {
            assert(!follows(world, current));
        } else if follows(world, camera) {
            let target = world.camera_targets.component(camera).unwrap().entity;
            lemma_single_camera(world, camera, (n - 1) as nat, camera);
            lemma_single_camera(world, camera, (n - 1) as nat, target);
        }
    }
}

} // verus!
