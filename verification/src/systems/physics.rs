use vstd::prelude::*;
use crate::collision::{
    agrees, box_box, box_circle, circle_box, circle_circle, contact_box_box, contact_box_circle,
    contact_circle_box, contact_circle_circle, lemma_disc_leaves_rectangle, lemma_discs_part,
    lemma_mirrored_push, lemma_rectangles_part, Contact, ContactModel,
};
use crate::components::{Active, Body, CollisionMarker, Dynamic, Shape, Transform, Velocity};
use crate::ecs::{Entity, Storage};
use crate::math::{clamp, clamped, div_round_away, saturate, saturated};
use crate::resources::WorldBounds;
use crate::vector::{scaled, Vector};
use crate::world::World;

verus! {

/// `position` brought into `bounds`: each coordinate limited to its
/// interval. Without bounds the position stays as it is.
pub open spec fn kept_within(position: Vector, bounds: Option<WorldBounds>) -> Vector {
    match bounds {
        Some(b) => Vector {
            x: clamped(position.x as int, b.left as int, b.right as int) as i32,
            y: clamped(position.y as int, b.bottom as int, b.top as int) as i32,
        },
        None => position,
    }
}

/// Brings a position into the bounds of the world, if it has any. The
/// result lies in valid bounds, their border included; a position that
/// already lies in the bounds stays as it is, and so does every position
/// where there are no bounds.
pub fn clamp_position(position: Vector, bounds: Option<WorldBounds>) -> (kept: Vector)
    ensures
        kept == kept_within(position, bounds),
        bounds.is_none() ==> kept == position,
        bounds.is_some() && bounds.unwrap().valid() ==> {
            &&& bounds.unwrap().left <= kept.x <= bounds.unwrap().right
            &&& bounds.unwrap().bottom <= kept.y <= bounds.unwrap().top
        },
        bounds.is_some() && bounds.unwrap().left <= position.x <= bounds.unwrap().right
            && bounds.unwrap().bottom <= position.y <= bounds.unwrap().top ==> kept == position,
{
    match bounds {
        Some(b) => Vector {
            x: clamp(position.x, b.left, b.right),
            y: clamp(position.y, b.bottom, b.top),
        },
        None => position,
    }
}

/// Where an entity at `position` stands after moving at `velocity` for one
/// tick, before any bounds are applied: `position + direction * speed`.
pub open spec fn advanced(position: Vector, velocity: Velocity) -> Vector {
    position.moved_by(
        scaled(velocity.direction.x as int, velocity.speed as int),
        scaled(velocity.direction.y as int, velocity.speed as int),
    )
}

/// Where an entity at `position` stands after one tick at `velocity`: moved
/// by `direction * speed`, and then, where there are bounds, brought back
/// into them.
pub open spec fn integrated(
    position: Vector,
    velocity: Velocity,
    bounds: Option<WorldBounds>,
) -> Vector {
    kept_within(advanced(position, velocity), bounds)
}

/// Advances one position by one velocity, and keeps it in the bounds if
/// there are any.
pub fn integrate(position: Vector, velocity: Velocity, bounds: Option<WorldBounds>) -> (moved:
    Vector)
    ensures
        moved == integrated(position, velocity, bounds),
        bounds.is_none() ==> moved == advanced(position, velocity),
        bounds.is_some() && bounds.unwrap().valid() ==> {
            &&& bounds.unwrap().left <= moved.x <= bounds.unwrap().right
            &&& bounds.unwrap().bottom <= moved.y <= bounds.unwrap().top
        },
{
    assert(-2147483648 * 2147483648 <= velocity.direction.x * velocity.speed <= 2147483648
        * 2147483648) by (nonlinear_arith)
        requires
            -2147483648 <= velocity.direction.x <= 2147483647,
            -2147483648 <= velocity.speed <= 2147483647,
    ;
    assert(-2147483648 * 2147483648 <= velocity.direction.y * velocity.speed <= 2147483648
        * 2147483648) by (nonlinear_arith)
        requires
            -2147483648 <= velocity.direction.y <= 2147483647,
            -2147483648 <= velocity.speed <= 2147483647,
    ;
    let step_x: i128 = div_round_away(
        velocity.direction.x as i128 * velocity.speed as i128,
        1000,
    );
    let step_y: i128 = div_round_away(
        velocity.direction.y as i128 * velocity.speed as i128,
        1000,
    );
    let x: i32 = saturate(position.x as i128 + step_x);
    let y: i32 = saturate(position.y as i128 + step_y);
    clamp_position(Vector { x, y }, bounds)
}

/// After integration a position lies in the bounds of the world, if these
/// are valid, their border included; without bounds the position is where
/// the velocity has carried it.
pub proof fn lemma_integrated_within(
    position: Vector,
    velocity: Velocity,
    bounds: Option<WorldBounds>,
)
    ensures
        bounds.is_none() ==> integrated(position, velocity, bounds) == advanced(
            position,
            velocity,
        ),
        bounds.is_some() && bounds.unwrap().valid() ==> {
            &&& bounds.unwrap().left <= integrated(position, velocity, bounds).x
                <= bounds.unwrap().right
            &&& bounds.unwrap().bottom <= integrated(position, velocity, bounds).y
                <= bounds.unwrap().top
        },
{
}

/// The transform that the movement system leaves on an entity: advanced by
/// the entity's velocity if the entity is active and has one, untouched
/// otherwise.
pub open spec fn moved_transform(world: World, entity: Entity) -> Option<Transform> {
    match (world.transforms.component(entity), world.velocities.component(entity)) {
        (Some(transform), Some(velocity)) => if world.actives.has(entity) {
            Some(
                Transform {
                    translation: integrated(transform.translation, velocity, world.bounds),
                    z: transform.z,
                },
            )
        } else {
            Some(transform)
        },
        (transform, _) => transform,
    }
}

/// Move entities according to their velocity.
/// Also make sure that entity is kept in world boundaries if any.
pub struct MovementSystem;

impl MovementSystem {
    /// Advances every active entity that has a position and a velocity.
    pub fn run(&mut self, world: &mut World)
        ensures
            forall|e: Entity|
                final(world).transforms.component(e) == moved_transform(*old(world), e),
            final(world).transforms.span() == old(world).transforms.span(),
            *final(world) == (World { transforms: final(world).transforms, ..*old(world) }),
    {
        let n: usize = world.transforms.len();
        let mut i: usize = 0;
        while i < n
            invariant
                i <= n,
                n as int == world.transforms.span(),
                world.transforms.span() == old(world).transforms.span(),
                *world == (World { transforms: world.transforms, ..*old(world) }),
                forall|e: Entity|
                    e.index < i ==> world.transforms.component(e) == moved_transform(
                        *old(world),
                        e,
                    ),
                forall|e: Entity|
                    e.index >= i ==> world.transforms.component(e) == old(
                        world,
                    ).transforms.component(e),
            decreases n - i,
        {
            let entity = Entity { index: i };
            match (world.transforms.get(entity), world.velocities.get(entity)) {
                (Some(transform), Some(velocity)) => {
                    if world.actives.contains(entity) {
                        let translation = integrate(
                            transform.translation,
                            velocity,
                            world.bounds,
                        );
                        world.transforms.insert(entity, Transform { translation, z: transform.z });
                    }
                },
                _ => {},
            }
            i = i + 1;
        }
    }
}

/// The contact of a first shape at `position_a` with a second shape at
/// `position_b`, by the test that belongs to the two kinds of shape.
pub open spec fn contact_between(
    position_a: Vector,
    shape_a: Shape,
    position_b: Vector,
    shape_b: Shape,
) -> Option<ContactModel> {
    match (shape_a, shape_b) {
        (Shape::Circle { shape: a }, Shape::Circle { shape: b }) => circle_circle(
            position_a,
            a,
            position_b,
            b,
        ),
        (Shape::Box { shape: a }, Shape::Box { shape: b }) => box_box(
            position_a,
            a,
            position_b,
            b,
        ),
        (Shape::Circle { shape: a }, Shape::Box { shape: b }) => circle_box(
            position_a,
            a,
            position_b,
            b,
        ),
        (Shape::Box { shape: a }, Shape::Circle { shape: b }) => box_circle(
            position_a,
            a,
            position_b,
            b,
        ),
    }
}

/// Compute the distance to separate two colliding entities.
/// Return None if not colliding.
pub fn compute_contact(
    transform_a: &Transform,
    body_a: &Body,
    transform_b: &Transform,
    body_b: &Body,
) -> (found: Option<Contact>)
    ensures
        agrees(
            found,
            contact_between(
                transform_a.translation,
                body_a.shape,
                transform_b.translation,
                body_b.shape,
            ),
        ),
{
    let pos_a = &transform_a.translation;
    let pos_b = &transform_b.translation;
    match (&body_a.shape, &body_b.shape) {
        (Shape::Circle { shape: shape_a }, Shape::Circle { shape: shape_b }) => {
            contact_circle_circle(pos_a, shape_a, pos_b, shape_b)
        },
        (Shape::Box { shape: shape_a }, Shape::Box { shape: shape_b }) => {
            contact_box_box(pos_a, shape_a, pos_b, shape_b)
        },
        (Shape::Circle { shape: shape_a }, Shape::Box { shape: shape_b }) => {
            contact_circle_box(pos_a, shape_a, pos_b, shape_b)
        },
        (Shape::Box { shape: shape_a }, Shape::Circle { shape: shape_b }) => {
            contact_box_circle(pos_a, shape_a, pos_b, shape_b)
        },
    }
}

/// The displacement that `contact` asks of the first shape, held within the
/// range of a coordinate.
pub open spec fn correction(contact: ContactModel) -> Vector {
    Vector { x: saturated(contact.push().0) as i32, y: saturated(contact.push().1) as i32 }
}

/// Whether `entity` takes part in collisions: it is active and has a
/// position and a body.
pub open spec fn collides(
    transforms: Storage<Transform>,
    bodies: Storage<Body>,
    actives: Storage<Active>,
    entity: Entity,
) -> bool {
    transforms.has(entity) && bodies.has(entity) && actives.has(entity)
}

/// What the meeting of `a` with `b` asks of `a`: the displacement out of
/// `b`, if the two are different entities that take part in collisions, `a`
/// is dynamic, and their shapes overlap.
pub open spec fn hit(
    transforms: Storage<Transform>,
    bodies: Storage<Body>,
    actives: Storage<Active>,
    a: Entity,
    b: Entity,
) -> Option<Vector> {
    if a != b && collides(transforms, bodies, actives, a) && collides(
        transforms,
        bodies,
        actives,
        b,
    ) && bodies.component(a).unwrap().dynamic == Dynamic::Dynamic {
        match contact_between(
            transforms.component(a).unwrap().translation,
            bodies.component(a).unwrap().shape,
            transforms.component(b).unwrap().translation,
            bodies.component(b).unwrap().shape,
        ) {
            Some(contact) => Some(correction(contact)),
            None => None,
        }
    } else {
        None
    }
}

/// What the last of the entities below index `n` that `a` collides with
/// asks of `a`.
pub open spec fn last_hit(
    transforms: Storage<Transform>,
    bodies: Storage<Body>,
    actives: Storage<Active>,
    a: Entity,
    n: nat,
) -> Option<Vector>
    decreases n,
{
    if n == 0 {
        None
    } else {
        match hit(transforms, bodies, actives, a, Entity { index: (n - 1) as usize }) {
            Some(push) => Some(push),
            None => last_hit(transforms, bodies, actives, a, (n - 1) as nat),
        }
    }
}

/// The mark on `entity` once all pairs are tested: that of its last
/// collision, or else the one it came with.
pub open spec fn marked(world: World, entity: Entity) -> Option<CollisionMarker> {
    match last_hit(
        world.transforms,
        world.bodies,
        world.actives,
        entity,
        world.transforms.span() as nat,
    ) {
        Some(penetration) => Some(CollisionMarker { penetration }),
        None => world.collisions.component(entity),
    }
}

/// The transform that the physics system leaves on an entity: moved by the
/// entity's mark if the entity is active and has one, untouched otherwise.
pub open spec fn resolved_transform(world: World, entity: Entity) -> Option<Transform> {
    match (world.transforms.component(entity), marked(world, entity)) {
        (Some(transform), Some(marker)) => if world.actives.has(entity) {
            Some(
                Transform {
                    translation: transform.translation.moved_by(
                        marker.penetration.x as int,
                        marker.penetration.y as int,
                    ),
                    z: transform.z,
                },
            )
        } else {
            Some(transform)
        },
        (transform, _) => transform,
    }
}

/// Tests `a` against one other entity.
fn detect_pair(
    transforms: &Storage<Transform>,
    bodies: &Storage<Body>,
    actives: &Storage<Active>,
    a: Entity,
    b: Entity,
) -> (push: Option<Vector>)
    ensures
        push == hit(*transforms, *bodies, *actives, a, b),
{
    if a.index == b.index || !actives.contains(a) || !actives.contains(b) {
        return None;
    }
    match (transforms.get(a), bodies.get(a), transforms.get(b), bodies.get(b)) {
        (Some(transform_a), Some(body_a), Some(transform_b), Some(body_b)) => {
            match compute_contact(&transform_a, &body_a, &transform_b, &body_b) {
                Some(contact) => {
                    match body_a.dynamic {
                        Dynamic::Dynamic => Some(contact.displacement()),
                        Dynamic::Static => None,
                    }
                },
                None => None,
            }
        },
        _ => None,
    }
}

/// Tests `a` against every other entity, and keeps what the last collision
/// asks.
fn detect(
    transforms: &Storage<Transform>,
    bodies: &Storage<Body>,
    actives: &Storage<Active>,
    a: Entity,
) -> (push: Option<Vector>)
    ensures
        push == last_hit(*transforms, *bodies, *actives, a, transforms.span() as nat),
{
    let n: usize = transforms.len();
    let mut push: Option<Vector> = None;
    let mut b: usize = 0;
    while b < n
        invariant
            b <= n,
            n as int == transforms.span(),
            push == last_hit(*transforms, *bodies, *actives, a, b as nat),
        decreases n - b,
    {
        match detect_pair(transforms, bodies, actives, a, Entity { index: b }) {
            Some(found) => {
                push = Some(found);
            },
            None => {},
        }
        b = b + 1;
    }
    push
}

/// Simple physics computation system. Handle collision detection and resolution.
pub struct PhysicsSystem;

impl PhysicsSystem {
    /// Tests every pair of bodies, marks each dynamic body with what its
    /// last collision asks of it, moves each marked body once, and drops
    /// the marks.
    pub fn run(&mut self, world: &mut World)
        ensures
            forall|e: Entity|
                final(world).transforms.component(e) == resolved_transform(*old(world), e),
            forall|e: Entity| !final(world).collisions.has(e),
            final(world).transforms.span() == old(world).transforms.span(),
            *final(world) == (World {
                transforms: final(world).transforms,
                collisions: final(world).collisions,
                ..*old(world)
            }),
    {
        let n: usize = world.transforms.len();
        // Detect collisions and mark dynamics colliding entities
        let mut a: usize = 0;
        while a < n
            invariant
                a <= n,
                n as int == world.transforms.span(),
                *world == (World { collisions: world.collisions, ..*old(world) }),
                forall|e: Entity|
                    e.index < a ==> world.collisions.component(e) == marked(*old(world), e),
                forall|e: Entity|
                    e.index >= a ==> world.collisions.component(e) == old(
                        world,
                    ).collisions.component(e),
            decreases n - a,
        {
            let entity = Entity { index: a };
            match detect(&world.transforms, &world.bodies, &world.actives, entity) {
                Some(penetration) => {
                    world.collisions.insert(entity, CollisionMarker::new(penetration));
                },
                None => {},
            }
            a = a + 1;
        }
        proof {
            assert forall|e: Entity| world.collisions.component(e) == marked(*old(world), e) by {
                if e.index >= n {
                    lemma_unplaced_never_hit(
                        world.transforms,
                        world.bodies,
                        world.actives,
                        e,
                        n as nat,
                    );
                }
            }
        }
        // Resolve all collisions
        let mut i: usize = 0;
        while i < n
            invariant
                i <= n,
                n as int == world.transforms.span(),
                world.transforms.span() == old(world).transforms.span(),
                *world == (World {
                    transforms: world.transforms,
                    collisions: world.collisions,
                    ..*old(world)
                }),
                forall|e: Entity| world.collisions.component(e) == marked(*old(world), e),
                forall|e: Entity|
                    e.index < i ==> world.transforms.component(e) == resolved_transform(
                        *old(world),
                        e,
                    ),
                forall|e: Entity|
                    e.index >= i ==> world.transforms.component(e) == old(
                        world,
                    ).transforms.component(e),
            decreases n - i,
        {
            let entity = Entity { index: i };
            match (world.transforms.get(entity), world.collisions.get(entity)) {
                (Some(transform), Some(collision)) => {
                    if world.actives.contains(entity) {
                        let translation = transform.translation.translate(
                            collision.penetration.x,
                            collision.penetration.y,
                        );
                        world.transforms.insert(entity, Transform { translation, z: transform.z });
                    }
                },
                _ => {},
            }
            i = i + 1;
        }
        // Remove all collision markers
        world.collisions.clear();
    }
}

/// An entity without a position collides with nothing.
pub proof fn lemma_unplaced_never_hit(
    transforms: Storage<Transform>,
    bodies: Storage<Body>,
    actives: Storage<Active>,
    a: Entity,
    n: nat,
)
    requires
        !transforms.has(a),
    ensures
        last_hit(transforms, bodies, actives, a, n).is_none(),
    decreases n,
{
    if n > 0 {
        lemma_unplaced_never_hit(transforms, bodies, actives, a, (n - 1) as nat);
    }
}

/// Where `a` collides with no entity but `b`, the last collision of `a`
/// among the entities below `n` is the one with `b`, if `b` is among them.
pub proof fn lemma_single_hit(
    transforms: Storage<Transform>,
    bodies: Storage<Body>,
    actives: Storage<Active>,
    a: Entity,
    b: Entity,
    n: nat,
)
    requires
        forall|e: Entity| e != b ==> hit(transforms, bodies, actives, a, e).is_none(),
    ensures
        last_hit(transforms, bodies, actives, a, n) == if b.index < n {
            hit(transforms, bodies, actives, a, b)
        } else {
            None
        },
    decreases n,
{
    if n > 0 {
        lemma_single_hit(transforms, bodies, actives, a, b, (n - 1) as nat);
        let e = Entity { index: (n - 1) as usize };
        if e != b {
            assert(hit(transforms, bodies, actives, a, e).is_none());
        }
    }
}

/// A static body is never asked to move.
pub proof fn lemma_static_never_hit(
    transforms: Storage<Transform>,
    bodies: Storage<Body>,
    actives: Storage<Active>,
    a: Entity,
    n: nat,
)
    requires
        bodies.has(a) ==> bodies.component(a).unwrap().dynamic == Dynamic::Static,
    ensures
        last_hit(transforms, bodies, actives, a, n).is_none(),
    decreases n,
{
    if n > 0 {
        lemma_static_never_hit(transforms, bodies, actives, a, (n - 1) as nat);
    }
}

/// The push of a contact frees the first shape from the second: moved by
/// `-normal * depth`, it no longer overlaps the second, whatever the two
/// shapes are, as long as the push does not carry it out of the coordinate
/// range.
pub proof fn lemma_push_frees(
    position_a: Vector,
    shape_a: Shape,
    position_b: Vector,
    shape_b: Shape,
)
    requires
        shape_a.valid(),
        shape_b.valid(),
        contact_between(position_a, shape_a, position_b, shape_b).is_some(),
        ({
            let push = contact_between(position_a, shape_a, position_b, shape_b).unwrap().push();
            &&& i32::MIN <= position_a.x + push.0 <= i32::MAX
            &&& i32::MIN <= position_a.y + push.1 <= i32::MAX
        }),
    ensures
        ({
            let push = contact_between(position_a, shape_a, position_b, shape_b).unwrap().push();
            let moved = Vector {
                x: (position_a.x + push.0) as i32,
                y: (position_a.y + push.1) as i32,
            };
            contact_between(moved, shape_a, position_b, shape_b).is_none()
        }),
{
    let dx = position_b.x - position_a.x;
    let dy = position_b.y - position_a.y;
    match (shape_a, shape_b) {
        (Shape::Circle { shape: a }, Shape::Circle { shape: b }) => {
            lemma_discs_part(dx, dy, a.radius + b.radius);
        },
        (Shape::Box { shape: a }, Shape::Box { shape: b }) => {
            lemma_rectangles_part(
                dx,
                dy,
                a.half_extents.x + b.half_extents.x,
                a.half_extents.y + b.half_extents.y,
            );
        },
        (Shape::Circle { shape: a }, Shape::Box { shape: b }) => {
            lemma_disc_leaves_rectangle(
                -dx,
                -dy,
                a.radius as int,
                b.half_extents.x as int,
                b.half_extents.y as int,
            );
        },
        (Shape::Box { shape: a }, Shape::Circle { shape: b }) => {
            lemma_disc_leaves_rectangle(
                dx,
                dy,
                b.radius as int,
                a.half_extents.x as int,
                a.half_extents.y as int,
            );
            lemma_mirrored_push(circle_box(position_b, b, position_a, a).unwrap());
        },
    }
}

/// One pass of collision resolution frees a dynamic body from a static one,
/// a dynamic disc from a static rectangle for one. If both are active, the
/// dynamic body overlaps the static body and nothing else, and the push
/// does not leave the coordinate range, then the pass moves the dynamic
/// body by exactly `-normal * depth` of their contact, leaves the static
/// body where it is, and the two no longer overlap afterwards.
pub proof fn lemma_dynamic_body_leaves_static_body(world: World, body: Entity, obstacle: Entity)
    requires
        body != obstacle,
        collides(world.transforms, world.bodies, world.actives, body),
        collides(world.transforms, world.bodies, world.actives, obstacle),
        world.bodies.component(body).unwrap().dynamic == Dynamic::Dynamic,
        world.bodies.component(obstacle).unwrap().dynamic == Dynamic::Static,
        world.bodies.component(body).unwrap().shape.valid(),
        world.bodies.component(obstacle).unwrap().shape.valid(),
        !world.collisions.has(obstacle),
        forall|e: Entity|
            e != obstacle ==> hit(
                world.transforms,
                world.bodies,
                world.actives,
                body,
                e,
            ).is_none(),
        contact_between(
            world.transforms.component(body).unwrap().translation,
            world.bodies.component(body).unwrap().shape,
            world.transforms.component(obstacle).unwrap().translation,
            world.bodies.component(obstacle).unwrap().shape,
        ).is_some(),
        ({
            let before = world.transforms.component(body).unwrap().translation;
            let push = contact_between(
                before,
                world.bodies.component(body).unwrap().shape,
                world.transforms.component(obstacle).unwrap().translation,
                world.bodies.component(obstacle).unwrap().shape,
            ).unwrap().push();
            &&& i32::MIN <= push.0 <= i32::MAX
            &&& i32::MIN <= push.1 <= i32::MAX
            &&& i32::MIN <= before.x + push.0 <= i32::MAX
            &&& i32::MIN <= before.y + push.1 <= i32::MAX
        }),
    ensures
        ({
            let before = world.transforms.component(body).unwrap().translation;
            let place = world.transforms.component(obstacle).unwrap().translation;
            let shape = world.bodies.component(body).unwrap().shape;
            let wall = world.bodies.component(obstacle).unwrap().shape;
            let contact = contact_between(before, shape, place, wall).unwrap();
            let after = resolved_transform(world, body).unwrap().translation;
            &&& after.x == before.x + contact.push().0
            &&& after.y == before.y + contact.push().1
            &&& resolved_transform(world, obstacle) == world.transforms.component(obstacle)
            &&& contact_between(after, shape, place, wall).is_none()
        }),
{
    let n = world.transforms.span() as nat;
    lemma_single_hit(world.transforms, world.bodies, world.actives, body, obstacle, n);
    lemma_static_never_hit(world.transforms, world.bodies, world.actives, obstacle, n);
    lemma_push_frees(
        world.transforms.component(body).unwrap().translation,
        world.bodies.component(body).unwrap().shape,
        world.transforms.component(obstacle).unwrap().translation,
        world.bodies.component(obstacle).unwrap().shape,
    );
}

} // verus!
