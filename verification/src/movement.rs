//! Motion components and the fixed-timestep motion integrator.
//!
//! The integrator runs in a strict chain each fixed step, because each stage
//! consumes the previous stage's output within the same step: acceleration
//! into velocity, velocity into position (semi-implicit: the same step's
//! acceleration is visible in its displacement), drag onto velocity last (so
//! its effect on speed is deferred to the next step's displacement), then the
//! renderable transform and the collider are resynced from the position.

use vstd::prelude::*;

use crate::math::scaled;
use crate::math::Aabb2d;
use crate::math::Transform;
use crate::math::Vec2;
use crate::math::Vec3;
use crate::math::mul_div;
use crate::math::MILLIS_PER_SECOND;
use crate::world::EntitySlot;
use crate::world::World;

verus! {

/// Instantaneous force intent, in world units per second per second;
/// rewritten every frame by a controller.
#[derive(Clone, Copy, PartialEq, Eq, Structural, Debug)]
pub struct Acceleration {
    pub vector: Vec2,
}

/// World-space rate of change of [`Position`], in world units per second.
#[derive(Clone, Copy, PartialEq, Eq, Structural, Debug)]
pub struct Velocity {
    pub vector: Vec2,
}

/// Authoritative world location; the source of truth for the renderable
/// transform and the collider.
#[derive(Clone, Copy, PartialEq, Eq, Structural, Debug)]
pub struct Position {
    pub vector: Vec2,
}

/// Fractional velocity decay per second, in thousandths per millisecond
/// terms: over `dt` milliseconds the velocity keeps the fraction
/// `(1000 - value * dt) / 1000`.
#[derive(Clone, Copy, PartialEq, Eq, Structural, Debug)]
pub struct Drag {
    pub value: i64,
}

/// Whether a value lies in the representable range of `i64`.
pub open spec fn fits_i64(x: int) -> bool {
    i64::MIN <= x <= i64::MAX
}

/// A rate integrated over `dt` milliseconds: `rate * dt / 1000`, truncating
/// toward zero.
pub open spec fn per_second(rate: int, dt: int) -> int {
    scaled(rate, dt, MILLIS_PER_SECOND as int)
}

/// Entities matched by the acceleration stage.
pub open spec fn accel_matched(e: EntitySlot) -> bool {
    e.alive && e.velocity is Some && e.acceleration is Some
}

/// One entity after the acceleration stage: `velocity += acceleration * dt`.
pub open spec fn accel_ent(e: EntitySlot, dt: int) -> EntitySlot {
    if accel_matched(e) {
        let v = e.velocity->0.vector;
        let a = e.acceleration->0.vector;
        EntitySlot {
            velocity: Some(
                Velocity {
                    vector: Vec2 {
                        x: (v.x + per_second(a.x as int, dt)) as i64,
                        y: (v.y + per_second(a.y as int, dt)) as i64,
                    },
                },
            ),
            ..e
        }
    } else {
        e
    }
}

/// The acceleration stage stays inside `i64` on this entity.
pub open spec fn accel_fits(e: EntitySlot, dt: int) -> bool {
    accel_matched(e) ==> {
        let v = e.velocity->0.vector;
        let a = e.acceleration->0.vector;
        &&& fits_i64(per_second(a.x as int, dt))
        &&& fits_i64(per_second(a.y as int, dt))
        &&& fits_i64(v.x + per_second(a.x as int, dt))
        &&& fits_i64(v.y + per_second(a.y as int, dt))
    }
}

/// Entities matched by the displacement stage.
pub open spec fn displace_matched(e: EntitySlot) -> bool {
    e.alive && e.position is Some && e.velocity is Some
}

/// One entity after the displacement stage: `position += velocity * dt`.
pub open spec fn displace_ent(e: EntitySlot, dt: int) -> EntitySlot {
    if displace_matched(e) {
        let p = e.position->0.vector;
        let v = e.velocity->0.vector;
        EntitySlot {
            position: Some(
                Position {
                    vector: Vec2 {
                        x: (p.x + per_second(v.x as int, dt)) as i64,
                        y: (p.y + per_second(v.y as int, dt)) as i64,
                    },
                },
            ),
            ..e
        }
    } else {
        e
    }
}

/// The displacement stage stays inside `i64` on this entity.
pub open spec fn displace_fits(e: EntitySlot, dt: int) -> bool {
    displace_matched(e) ==> {
        let p = e.position->0.vector;
        let v = e.velocity->0.vector;
        &&& fits_i64(per_second(v.x as int, dt))
        &&& fits_i64(per_second(v.y as int, dt))
        &&& fits_i64(p.x + per_second(v.x as int, dt))
        &&& fits_i64(p.y + per_second(v.y as int, dt))
    }
}

/// Entities matched by the drag stage.
pub open spec fn drag_matched(e: EntitySlot) -> bool {
    e.alive && e.velocity is Some && e.drag is Some
}

/// One entity after the drag stage: `velocity *= (1 - drag * dt)`, in
/// fixed-point thousandths.
pub open spec fn drag_ent(e: EntitySlot, dt: int) -> EntitySlot {
    if drag_matched(e) {
        let v = e.velocity->0.vector;
        let d = e.drag->0.value;
        let keep = MILLIS_PER_SECOND - d * dt;
        EntitySlot {
            velocity: Some(
                Velocity {
                    vector: Vec2 {
                        x: scaled(v.x as int, keep, MILLIS_PER_SECOND as int) as i64,
                        y: scaled(v.y as int, keep, MILLIS_PER_SECOND as int) as i64,
                    },
                },
            ),
            ..e
        }
    } else {
        e
    }
}

/// The drag stage stays inside `i64` on this entity.
pub open spec fn drag_fits(e: EntitySlot, dt: int) -> bool {
    drag_matched(e) ==> {
        let v = e.velocity->0.vector;
        let d = e.drag->0.value;
        let keep = MILLIS_PER_SECOND - d * dt;
        &&& fits_i64(d * dt)
        &&& fits_i64(keep)
        &&& fits_i64(scaled(v.x as int, keep, MILLIS_PER_SECOND as int))
        &&& fits_i64(scaled(v.y as int, keep, MILLIS_PER_SECOND as int))
    }
}

/// Entities matched by the transform resync: every moving, visible entity.
/// An entity without a velocity is static decoration and is left alone.
pub open spec fn sprite_matched(e: EntitySlot) -> bool {
    e.alive && e.transform is Some && e.position is Some && e.velocity is Some
}

/// One entity after the transform resync: the position is copied into the
/// renderable translation's planar coordinates, depth untouched.
pub open spec fn sprite_ent(e: EntitySlot) -> EntitySlot {
    if sprite_matched(e) {
        let p = e.position->0.vector;
        let t = e.transform->0;
        EntitySlot {
            transform: Some(
                Transform {
                    translation: Vec3 { x: p.x, y: p.y, z: t.translation.z },
                    ..t
                },
            ),
            ..e
        }
    } else {
        e
    }
}

/// Entities matched by the collider resync: moving entities with a collider
/// and a known visual size.
pub open spec fn collider_matched(e: EntitySlot) -> bool {
    e.alive && e.collider is Some && e.position is Some && e.sprite_size is Some
        && e.velocity is Some
}

/// One entity after the collider resync: the bounding box is recentered on
/// the position, extended by half the visual size on each axis (width for x,
/// height for y).
pub open spec fn collider_ent(e: EntitySlot) -> EntitySlot {
    if collider_matched(e) {
        let p = e.position->0.vector;
        let s = e.sprite_size->0;
        let hx = scaled(s.x as int, 1, 2);
        let hy = scaled(s.y as int, 1, 2);
        EntitySlot {
            collider: Some(
                crate::bullet::Collider {
                    aabb: Aabb2d {
                        min: Vec2 { x: (p.x - hx) as i64, y: (p.y - hy) as i64 },
                        max: Vec2 { x: (p.x + hx) as i64, y: (p.y + hy) as i64 },
                    },
                },
            ),
            ..e
        }
    } else {
        e
    }
}

/// The collider resync stays inside `i64` on this entity.
pub open spec fn collider_fits(e: EntitySlot) -> bool {
    collider_matched(e) ==> {
        let p = e.position->0.vector;
        let s = e.sprite_size->0;
        let hx = scaled(s.x as int, 1, 2);
        let hy = scaled(s.y as int, 1, 2);
        &&& fits_i64(p.x - hx)
        &&& fits_i64(p.y - hy)
        &&& fits_i64(p.x + hx)
        &&& fits_i64(p.y + hy)
    }
}

/// `velocity += acceleration * dt` for every entity carrying both.
pub fn apply_acceleration(w: &mut World, dt: i64)
    requires
        dt >= 0,
        forall|j: int|
            0 <= j < old(w).ents@.len() ==> accel_fits(#[trigger] old(w).ents@[j], dt as int),
    ensures
        final(w).ents@ == old(w).ents@.map_values(|e: EntitySlot| accel_ent(e, dt as int)),
        final(w).spawner == old(w).spawner,
        final(w).despawns@ == old(w).despawns@,
        final(w).spawns@ == old(w).spawns@,
{
    let n = w.ents.len();
    let mut i: usize = 0;
    while i < n
        invariant
            i <= n,
            n == w.ents@.len(),
            w.ents@.len() == old(w).ents@.len(),
            dt >= 0,
            forall|j: int|
                0 <= j < old(w).ents@.len() ==> accel_fits(#[trigger] old(w).ents@[j], dt as int),
            forall|j: int|
                0 <= j < i ==> w.ents@[j] == accel_ent(#[trigger] old(w).ents@[j], dt as int),
            forall|j: int| i <= j < n ==> w.ents@[j] == old(w).ents@[j],
            w.spawner == old(w).spawner,
            w.despawns@ == old(w).despawns@,
            w.spawns@ == old(w).spawns@,
        decreases n - i,
    {
        let e = w.ents[i];
        if e.alive && e.velocity.is_some() && e.acceleration.is_some() {
            let v = e.velocity.unwrap().vector;
            let a = e.acceleration.unwrap().vector;
            let nx = v.x + mul_div(a.x, dt, MILLIS_PER_SECOND);
            let ny = v.y + mul_div(a.y, dt, MILLIS_PER_SECOND);
            w.ents[i].velocity = Some(Velocity { vector: Vec2 { x: nx, y: ny } });
        }
        i += 1;
    }
    proof {
        assert(w.ents@ =~= old(w).ents@.map_values(|e: EntitySlot| accel_ent(e, dt as int)));
    }
}

/// `position += velocity * dt` for every entity carrying both, using the
/// velocity already updated by the acceleration stage of the same step.
pub fn apply_velocity(w: &mut World, dt: i64)
    requires
        dt >= 0,
        forall|j: int|
            0 <= j < old(w).ents@.len() ==> displace_fits(#[trigger] old(w).ents@[j], dt as int),
    ensures
        final(w).ents@ == old(w).ents@.map_values(|e: EntitySlot| displace_ent(e, dt as int)),
        final(w).spawner == old(w).spawner,
        final(w).despawns@ == old(w).despawns@,
        final(w).spawns@ == old(w).spawns@,
{
    let n = w.ents.len();
    let mut i: usize = 0;
    while i < n
        invariant
            i <= n,
            n == w.ents@.len(),
            w.ents@.len() == old(w).ents@.len(),
            dt >= 0,
            forall|j: int|
                0 <= j < old(w).ents@.len() ==> displace_fits(
                    #[trigger] old(w).ents@[j],
                    dt as int,
                ),
            forall|j: int|
                0 <= j < i ==> w.ents@[j] == displace_ent(#[trigger] old(w).ents@[j], dt as int),
            forall|j: int| i <= j < n ==> w.ents@[j] == old(w).ents@[j],
            w.spawner == old(w).spawner,
            w.despawns@ == old(w).despawns@,
            w.spawns@ == old(w).spawns@,
        decreases n - i,
    {
        let e = w.ents[i];
        if e.alive && e.position.is_some() && e.velocity.is_some() {
            let p = e.position.unwrap().vector;
            let v = e.velocity.unwrap().vector;
            let nx = p.x + mul_div(v.x, dt, MILLIS_PER_SECOND);
            let ny = p.y + mul_div(v.y, dt, MILLIS_PER_SECOND);
            w.ents[i].position = Some(Position { vector: Vec2 { x: nx, y: ny } });
        }
        i += 1;
    }
    proof {
        assert(w.ents@ =~= old(w).ents@.map_values(|e: EntitySlot| displace_ent(e, dt as int)));
    }
}

/// `velocity *= (1 - drag * dt)` for every entity carrying both, applied
/// after displacement so that this step's travel used the undragged speed.
pub fn apply_drag(w: &mut World, dt: i64)
    requires
        dt >= 0,
        forall|j: int|
            0 <= j < old(w).ents@.len() ==> drag_fits(#[trigger] old(w).ents@[j], dt as int),
    ensures
        final(w).ents@ == old(w).ents@.map_values(|e: EntitySlot| drag_ent(e, dt as int)),
        final(w).spawner == old(w).spawner,
        final(w).despawns@ == old(w).despawns@,
        final(w).spawns@ == old(w).spawns@,
{
    let n = w.ents.len();
    let mut i: usize = 0;
    while i < n
        invariant
            i <= n,
            n == w.ents@.len(),
            w.ents@.len() == old(w).ents@.len(),
            dt >= 0,
            forall|j: int|
                0 <= j < old(w).ents@.len() ==> drag_fits(#[trigger] old(w).ents@[j], dt as int),
            forall|j: int|
                0 <= j < i ==> w.ents@[j] == drag_ent(#[trigger] old(w).ents@[j], dt as int),
            forall|j: int| i <= j < n ==> w.ents@[j] == old(w).ents@[j],
            w.spawner == old(w).spawner,
            w.despawns@ == old(w).despawns@,
            w.spawns@ == old(w).spawns@,
        decreases n - i,
    {
        let e = w.ents[i];
        if e.alive && e.velocity.is_some() && e.drag.is_some() {
            let v = e.velocity.unwrap().vector;
            let d = e.drag.unwrap().value;
            let keep = MILLIS_PER_SECOND - d * dt;
            let nx = mul_div(v.x, keep, MILLIS_PER_SECOND);
            let ny = mul_div(v.y, keep, MILLIS_PER_SECOND);
            w.ents[i].velocity = Some(Velocity { vector: Vec2 { x: nx, y: ny } });
        }
        i += 1;
    }
    proof {
        assert(w.ents@ =~= old(w).ents@.map_values(|e: EntitySlot| drag_ent(e, dt as int)));
    }
}

/// Copies the position of every moving entity into its renderable
/// translation; the depth coordinate is never modified.
pub fn update_moving_sprites(w: &mut World)
    ensures
        final(w).ents@ == old(w).ents@.map_values(|e: EntitySlot| sprite_ent(e)),
        final(w).spawner == old(w).spawner,
        final(w).despawns@ == old(w).despawns@,
        final(w).spawns@ == old(w).spawns@,
{
    let n = w.ents.len();
    let mut i: usize = 0;
    while i < n
        invariant
            i <= n,
            n == w.ents@.len(),
            w.ents@.len() == old(w).ents@.len(),
            forall|j: int| 0 <= j < i ==> w.ents@[j] == sprite_ent(#[trigger] old(w).ents@[j]),
            forall|j: int| i <= j < n ==> w.ents@[j] == old(w).ents@[j],
            w.spawner == old(w).spawner,
            w.despawns@ == old(w).despawns@,
            w.spawns@ == old(w).spawns@,
        decreases n - i,
    {
        let e = w.ents[i];
        if e.alive && e.transform.is_some() && e.position.is_some() && e.velocity.is_some() {
            let p = e.position.unwrap().vector;
            let t = e.transform.unwrap();
            w.ents[i].transform = Some(
                Transform { translation: Vec3 { x: p.x, y: p.y, z: t.translation.z }, ..t },
            );
        }
        i += 1;
    }
    proof {
        assert(w.ents@ =~= old(w).ents@.map_values(|e: EntitySlot| sprite_ent(e)));
    }
}

/// Recenters the bounding box of every moving, collidable entity on its
/// position, with half-extents derived from its visual size: half the width
/// on the x axis and half the height on the y axis.
pub fn update_moving_colliders(w: &mut World)
    requires
        forall|j: int| 0 <= j < old(w).ents@.len() ==> collider_fits(#[trigger] old(w).ents@[j]),
    ensures
        final(w).ents@ == old(w).ents@.map_values(|e: EntitySlot| collider_ent(e)),
        final(w).spawner == old(w).spawner,
        final(w).despawns@ == old(w).despawns@,
        final(w).spawns@ == old(w).spawns@,
{
    let n = w.ents.len();
    let mut i: usize = 0;
    while i < n
        invariant
            i <= n,
            n == w.ents@.len(),
            w.ents@.len() == old(w).ents@.len(),
            forall|j: int| 0 <= j < old(w).ents@.len() ==> collider_fits(#[trigger] old(w).ents@[j]),
            forall|j: int| 0 <= j < i ==> w.ents@[j] == collider_ent(#[trigger] old(w).ents@[j]),
            forall|j: int| i <= j < n ==> w.ents@[j] == old(w).ents@[j],
            w.spawner == old(w).spawner,
            w.despawns@ == old(w).despawns@,
            w.spawns@ == old(w).spawns@,
        decreases n - i,
    {
        let e = w.ents[i];
        if e.alive && e.collider.is_some() && e.position.is_some() && e.sprite_size.is_some()
            && e.velocity.is_some() {
            let p = e.position.unwrap().vector;
            let s = e.sprite_size.unwrap();
            let hx = mul_div(s.x, 1, 2);
            let hy = mul_div(s.y, 1, 2);
            w.ents[i].collider = Some(
                crate::bullet::Collider {
                    aabb: Aabb2d {
                        min: Vec2 { x: p.x - hx, y: p.y - hy },
                        max: Vec2 { x: p.x + hx, y: p.y + hy },
                    },
                },
            );
        }
        i += 1;
    }
    proof {
        assert(w.ents@ =~= old(w).ents@.map_values(|e: EntitySlot| collider_ent(e)));
    }
}

/// The whole fixed step stays inside `i64` on this entity, stage by stage.
pub open spec fn motion_fits(e: EntitySlot, dt: int) -> bool {
    &&& accel_fits(e, dt)
    &&& displace_fits(accel_ent(e, dt), dt)
    &&& drag_fits(displace_ent(accel_ent(e, dt), dt), dt)
    &&& collider_fits(sprite_ent(drag_ent(displace_ent(accel_ent(e, dt), dt), dt)))
}

/// The entity table after one whole fixed step: the five stages applied in
/// their fixed order.
pub open spec fn motion_step(s: Seq<EntitySlot>, dt: int) -> Seq<EntitySlot> {
    s.map_values(|e: EntitySlot| accel_ent(e, dt)).map_values(
        |e: EntitySlot| displace_ent(e, dt),
    ).map_values(|e: EntitySlot| drag_ent(e, dt)).map_values(|e: EntitySlot| sprite_ent(e)).map_values(
        |e: EntitySlot| collider_ent(e),
    )
}

/// One fixed simulation step: the five integrator stages, in the strict
/// order acceleration, displacement, drag, transform resync, collider
/// resync.
pub fn fixed_step(w: &mut World, dt: i64)
    requires
        dt >= 0,
        forall|j: int|
            0 <= j < old(w).ents@.len() ==> motion_fits(#[trigger] old(w).ents@[j], dt as int),
    ensures
        final(w).ents@ == motion_step(old(w).ents@, dt as int),
        final(w).spawner == old(w).spawner,
        final(w).despawns@ == old(w).despawns@,
        final(w).spawns@ == old(w).spawns@,
{
    apply_acceleration(w, dt);
    apply_velocity(w, dt);
    apply_drag(w, dt);
    update_moving_sprites(w);
    update_moving_colliders(w);
}

/// One integrator step is semi-implicit: the velocity is advanced by the
/// acceleration first, the position moves by that already-advanced velocity,
/// and only after displacement does drag attenuate the velocity by
/// `(1 - drag * dt)`.
pub proof fn lemma_semi_implicit_step(e: EntitySlot, dt: int)
    requires
        dt >= 0,
        e.alive,
        e.velocity is Some,
        e.acceleration is Some,
        e.position is Some,
        e.drag is Some,
        accel_fits(e, dt),
        displace_fits(accel_ent(e, dt), dt),
        drag_fits(displace_ent(accel_ent(e, dt), dt), dt),
    ensures
        ({
            let v = e.velocity->0.vector;
            let a = e.acceleration->0.vector;
            let p = e.position->0.vector;
            let d = e.drag->0.value;
            let v1x = v.x + per_second(a.x as int, dt);
            let v1y = v.y + per_second(a.y as int, dt);
            let stepped = drag_ent(displace_ent(accel_ent(e, dt), dt), dt);
            &&& stepped.position->0.vector.x == p.x + per_second(v1x, dt)
            &&& stepped.position->0.vector.y == p.y + per_second(v1y, dt)
            &&& stepped.velocity->0.vector.x == scaled(
                v1x,
                MILLIS_PER_SECOND - d * dt,
                MILLIS_PER_SECOND as int,
            )
            &&& stepped.velocity->0.vector.y == scaled(
                v1y,
                MILLIS_PER_SECOND - d * dt,
                MILLIS_PER_SECOND as int,
            )
        }),
{
}

} // verus!
