//! The player controller: directional input becomes acceleration intent, and
//! fire requests spawn projectiles, gated by a one-shot cooldown.

use vstd::prelude::*;

use crate::bullet::BulletBundle;
use crate::bullet::Collider;
use crate::bullet::PlayerAttack;
use crate::bullet::SelfDestruct;
use crate::math::Aabb2d;
use crate::math::Vec2;
use crate::movement::fits_i64;
use crate::movement::Acceleration;
use crate::movement::Position;
use crate::movement::Velocity;
use crate::rng::random_in_range;
use crate::timer::Timer;
use crate::timer::TimerMode;
use crate::world::EntitySlot;
use crate::world::SpawnRequest;
use crate::world::World;

verus! {

/// Forward speed of a fired projectile, in world units per second.
pub const BULLET_SPEED: i64 = 750;

/// Bound on the magnitude of the horizontal velocity jitter of a projectile.
pub const BULLET_JITTER_X: i64 = 100;

/// Bound on the magnitude of the vertical velocity jitter of a projectile.
pub const BULLET_JITTER_Y: i64 = 125;

/// Lifetime of a projectile's one-shot self-destruct timer, in milliseconds.
pub const BULLET_LIFETIME_MS: i64 = 400;

/// Visual size (both axes) a projectile is drawn with.
pub const BULLET_SIZE: i64 = 10;

/// Half-extent of a fresh projectile's collider on each axis.
pub const BULLET_HALF_EXTENT: i64 = 5;

/// Duration of the fire cooldown, in milliseconds.
pub const FIRE_COOLDOWN_MS: i64 = 100;

/// Movement speed of the player, in world units per second per second.
pub const PLAYER_SPEED: i64 = 1300;

/// Drag coefficient of the player.
pub const PLAYER_DRAG: i64 = 3;

/// Health the player starts with.
pub const PLAYER_HEALTH: i32 = 100;

/// Visual size (both axes) the player is drawn with.
pub const PLAYER_SIZE: i64 = 40;

/// Marks the player-driven entity and holds its movement speed, in world
/// units per second per second of commanded acceleration.
#[derive(Clone, Copy, PartialEq, Eq, Structural, Debug)]
pub struct PlayerControlled {
    pub speed: i64,
}

/// One-shot cooldown that gates firing: a fire request is honored only when
/// this timer has completed, and a successful fire resets it.
#[derive(Clone, Copy, PartialEq, Eq, Structural, Debug)]
pub struct FireRate {
    pub timer: Timer,
}

/// The per-frame boolean key states the controller consumes.
#[derive(Clone, Copy, PartialEq, Eq, Structural, Debug)]
pub struct PlayerInput {
    pub up: bool,
    pub down: bool,
    pub left: bool,
    pub right: bool,
    pub fire: bool,
}

/// The acceleration the key states command: each axis is set independently
/// and unconditionally, the negative direction winning a same-axis conflict.
pub open spec fn commanded_accel(speed: i64, input: PlayerInput) -> Vec2 {
    Vec2 {
        x: if input.left {
            (-(speed as int)) as i64
        } else if input.right {
            speed
        } else {
            0
        },
        y: if input.down {
            (-(speed as int)) as i64
        } else if input.up {
            speed
        } else {
            0
        },
    }
}

/// Entities the controller drives.
pub open spec fn player_matched(e: EntitySlot) -> bool {
    &&& e.alive
    &&& e.acceleration is Some
    &&& e.fire_rate is Some
    &&& e.velocity is Some
    &&& e.position is Some
    &&& e.player_controlled is Some
}

/// Whether this entity fires this frame: the fire key is held and the
/// cooldown, advanced by this frame's `dt`, has completed.
pub open spec fn player_fires(e: EntitySlot, input: PlayerInput, dt: int) -> bool {
    player_matched(e) && input.fire && e.fire_rate->0.timer.ticked(dt).spec_finished()
}

/// One entity after the controller pass: the cooldown advanced (and reset
/// again if a fire succeeded), and the acceleration rewritten from the keys.
pub open spec fn player_ent(e: EntitySlot, input: PlayerInput, dt: int) -> EntitySlot {
    if player_matched(e) {
        let ticked = e.fire_rate->0.timer.ticked(dt);
        let after = if player_fires(e, input, dt) {
            Timer { elapsed_ms: 0, just_finished: false, ..ticked }
        } else {
            ticked
        };
        EntitySlot {
            acceleration: Some(
                Acceleration { vector: commanded_accel(e.player_controlled->0.speed, input) },
            ),
            fire_rate: Some(FireRate { timer: after }),
            ..e
        }
    } else {
        e
    }
}

/// The controller pass on this entity stays well formed and in range.
pub open spec fn player_fits(e: EntitySlot, input: PlayerInput, dt: int) -> bool {
    player_matched(e) ==> {
        &&& e.fire_rate->0.timer.wf()
        &&& e.fire_rate->0.timer.elapsed_ms + dt <= i64::MAX
        &&& fits_i64(-(e.player_controlled->0.speed as int))
        &&& player_fires(e, input, dt) ==> {
            &&& fits_i64(e.velocity->0.vector.x + BULLET_JITTER_X)
            &&& fits_i64(e.velocity->0.vector.x - BULLET_JITTER_X)
            &&& fits_i64(BULLET_SPEED + e.velocity->0.vector.x + BULLET_JITTER_X)
            &&& fits_i64(BULLET_SPEED + e.velocity->0.vector.x - BULLET_JITTER_X)
        }
    }
}

/// The bundle a fired projectile spawns with, as a function of the firing
/// entity's position and velocity and the drawn jitter: the fixed forward
/// speed plus the firer's horizontal velocity plus the horizontal jitter,
/// vertical velocity from the vertical jitter alone, a small collider, and a
/// short one-shot self-destruct timer.
pub open spec fn bullet_bundle(pos: Vec2, vel: Vec2, jx: i64, jy: i64) -> BulletBundle {
    BulletBundle {
        player_attack: PlayerAttack,
        velocity: Velocity { vector: Vec2 { x: (BULLET_SPEED + vel.x + jx) as i64, y: jy } },
        position: Position { vector: pos },
        collider: Collider {
            aabb: Aabb2d {
                min: Vec2 { x: (-BULLET_HALF_EXTENT) as i64, y: (-BULLET_HALF_EXTENT) as i64 },
                max: Vec2 { x: BULLET_HALF_EXTENT, y: BULLET_HALF_EXTENT },
            },
        },
        self_destruct: SelfDestruct {
            timer: Timer {
                duration_ms: BULLET_LIFETIME_MS,
                elapsed_ms: 0,
                mode: TimerMode::Once,
                just_finished: false,
            },
        },
        sprite_size: Vec2 { x: BULLET_SIZE, y: BULLET_SIZE },
    }
}

/// Whether a spawn request is a projectile fired by an entity with the given
/// position and velocity, for some jitter within the fixed symmetric ranges.
pub open spec fn is_fire_spawn(req: SpawnRequest, pos: Vec2, vel: Vec2) -> bool {
    exists|jx: i64, jy: i64|
        {
            &&& -BULLET_JITTER_X <= jx <= BULLET_JITTER_X
            &&& -BULLET_JITTER_Y <= jy <= BULLET_JITTER_Y
            &&& req == SpawnRequest::Bullet(#[trigger] bullet_bundle(pos, vel, jx, jy))
        }
}

/// Whether `req` is a projectile fired this frame by some driven entity of
/// `s`: the entity fires, and the projectile carries its position and
/// velocity with in-range jitter.
pub open spec fn spawned_by_some_firer(
    s: Seq<EntitySlot>,
    req: SpawnRequest,
    input: PlayerInput,
    dt: int,
) -> bool {
    exists|idx: int|
        {
            &&& 0 <= idx < s.len()
            &&& player_fires(#[trigger] s[idx], input, dt)
            &&& is_fire_spawn(req, s[idx].position->0.vector, s[idx].velocity->0.vector)
        }
}

/// How many entities fire this frame.
pub open spec fn fire_count(s: Seq<EntitySlot>, input: PlayerInput, dt: int) -> int
    decreases s.len(),
{
    if s.len() == 0 {
        0
    } else {
        fire_count(s.drop_last(), input, dt) + if player_fires(s.last(), input, dt) {
            1int
        } else {
            0int
        }
    }
}

/// At most one projectile is queued per driven entity per frame.
pub proof fn lemma_fire_count_bounds(s: Seq<EntitySlot>, input: PlayerInput, dt: int)
    ensures
        0 <= fire_count(s, input, dt) <= s.len(),
    decreases s.len(),
{
    if s.len() > 0 {
        lemma_fire_count_bounds(s.drop_last(), input, dt);
    }
}

/// A fire cooldown of duration `C` gates firing by elapsed time since the
/// last successful fire: with the fire key held, a request made when the
/// cumulative time `t + dt` since the cooldown was last reset is below `C`
/// is ignored, and one made at `t + dt >= C` succeeds — and a successful
/// fire resets the cooldown to an un-elapsed one-shot timer of the same
/// duration.
pub proof fn lemma_fire_cooldown(e: EntitySlot, t0: Timer, dts: Seq<int>, dt: int, input: PlayerInput)
    requires
        t0.wf(),
        t0.mode == TimerMode::Once,
        t0.elapsed_ms == 0,
        forall|i: int| 0 <= i < dts.len() ==> dts[i] >= 0,
        dt >= 0,
        player_matched(e),
        e.fire_rate == Some(FireRate { timer: crate::timer::ticked_all(t0, dts) }),
        input.fire,
    ensures
        player_fires(e, input, dt) <==> crate::timer::sum_ms(dts) + dt >= t0.duration_ms,
        player_fires(e, input, dt) ==> player_ent(e, input, dt).fire_rate == Some(
            FireRate {
                timer: Timer {
                    duration_ms: t0.duration_ms,
                    elapsed_ms: 0,
                    mode: TimerMode::Once,
                    just_finished: false,
                },
            },
        ),
        !player_fires(e, input, dt) ==> player_ent(e, input, dt).fire_rate == Some(
            FireRate { timer: crate::timer::ticked_all(t0, dts).ticked(dt) },
        ),
{
    crate::timer::lemma_once_timer_cumulative(t0, dts);
}

/// Builds the projectile bundle a successful fire spawns, from the firing
/// entity's position and velocity and the drawn jitter.
pub fn make_bullet(pos: Vec2, vel: Vec2, jx: i64, jy: i64) -> (b: BulletBundle)
    requires
        fits_i64(vel.x + jx),
        fits_i64(BULLET_SPEED + vel.x + jx),
    ensures
        b == bullet_bundle(pos, vel, jx, jy),
{
    BulletBundle {
        player_attack: PlayerAttack,
        velocity: Velocity { vector: Vec2 { x: BULLET_SPEED + (vel.x + jx), y: jy } },
        position: Position { vector: pos },
        collider: Collider {
            aabb: Aabb2d {
                min: Vec2 { x: -BULLET_HALF_EXTENT, y: -BULLET_HALF_EXTENT },
                max: Vec2 { x: BULLET_HALF_EXTENT, y: BULLET_HALF_EXTENT },
            },
        },
        self_destruct: SelfDestruct {
            timer: Timer {
                duration_ms: BULLET_LIFETIME_MS,
                elapsed_ms: 0,
                mode: TimerMode::Once,
                just_finished: false,
            },
        },
        sprite_size: Vec2 { x: BULLET_SIZE, y: BULLET_SIZE },
    }
}

/// Reads the held keys, rewrites each driven entity's acceleration from
/// them, advances its fire cooldown, and, when the fire key is held with the
/// cooldown complete, resets the cooldown and queues one projectile at the
/// entity's position with jittered velocity.
pub fn apply_player_control(w: &mut World, input: PlayerInput, dt: i64)
    requires
        dt >= 0,
        forall|j: int|
            0 <= j < old(w).ents@.len() ==> player_fits(#[trigger] old(w).ents@[j], input, dt as int),
    ensures
        final(w).ents@ == old(w).ents@.map_values(|e: EntitySlot| player_ent(e, input, dt as int)),
        final(w).despawns@ == old(w).despawns@,
        final(w).spawner == old(w).spawner,
        final(w).spawns@.len() == old(w).spawns@.len() + fire_count(old(w).ents@, input, dt as int),
        final(w).spawns@.take(old(w).spawns@.len() as int) == old(w).spawns@,
        forall|k: int|
            old(w).spawns@.len() <= k < final(w).spawns@.len() ==> spawned_by_some_firer(
                old(w).ents@,
                #[trigger] final(w).spawns@[k],
                input,
                dt as int,
            ),
{
    let n = w.ents.len();
    let mut i: usize = 0;
    while i < n
        invariant
            i <= n,
            n == w.ents@.len(),
            w.ents@.len() == old(w).ents@.len(),
            dt >= 0,
            forall|j: int|
                0 <= j < old(w).ents@.len() ==> player_fits(
                    #[trigger] old(w).ents@[j],
                    input,
                    dt as int,
                ),
            forall|j: int|
                0 <= j < i ==> w.ents@[j] == player_ent(#[trigger] old(w).ents@[j], input, dt as int),
            forall|j: int| i <= j < n ==> w.ents@[j] == old(w).ents@[j],
            w.despawns@ == old(w).despawns@,
            w.spawner == old(w).spawner,
            w.spawns@.len() == old(w).spawns@.len() + fire_count(
                old(w).ents@.take(i as int),
                input,
                dt as int,
            ),
            w.spawns@.take(old(w).spawns@.len() as int) == old(w).spawns@,
            forall|k: int|
                old(w).spawns@.len() <= k < w.spawns@.len() ==> spawned_by_some_firer(
                    old(w).ents@,
                    #[trigger] w.spawns@[k],
                    input,
                    dt as int,
                ),
        decreases n - i,
    {
        let ghost pre = old(w).ents@.take(i as int);
        let e = w.ents[i];
        if e.alive && e.acceleration.is_some() && e.fire_rate.is_some() && e.velocity.is_some()
            && e.position.is_some() && e.player_controlled.is_some() {
            let mut timer = e.fire_rate.unwrap().timer;
            timer.tick(dt);
            let speed = e.player_controlled.unwrap().speed;
            let ax = if input.left {
                -speed
            } else if input.right {
                speed
            } else {
                0
            };
            let ay = if input.down {
                -speed
            } else if input.up {
                speed
            } else {
                0
            };
            w.ents[i].acceleration = Some(Acceleration { vector: Vec2 { x: ax, y: ay } });
            if timer.finished() && input.fire {
                timer.reset();
                w.ents[i].fire_rate = Some(FireRate { timer });
                let pos = e.position.unwrap().vector;
                let vel = e.velocity.unwrap().vector;
                let jx = random_in_range(-BULLET_JITTER_X, BULLET_JITTER_X);
                let jy = random_in_range(-BULLET_JITTER_Y, BULLET_JITTER_Y);
                let ghost prev_spawns = w.spawns@;
                let bullet = make_bullet(pos, vel, jx, jy);
                w.queue_spawn(SpawnRequest::Bullet(bullet));
                proof {
                    assert(is_fire_spawn(SpawnRequest::Bullet(bullet), pos, vel));
                    assert(player_fires(old(w).ents@[i as int], input, dt as int));
                    assert(spawned_by_some_firer(
                        old(w).ents@,
                        SpawnRequest::Bullet(bullet),
                        input,
                        dt as int,
                    ));
                    assert forall|k: int|
                        old(w).spawns@.len() <= k < w.spawns@.len() implies spawned_by_some_firer(
                        old(w).ents@,
                        #[trigger] w.spawns@[k],
                        input,
                        dt as int,
                    ) by {
                        if k < prev_spawns.len() {
                            assert(w.spawns@[k] == prev_spawns[k]);
                        } else {
                            assert(w.spawns@[k] == SpawnRequest::Bullet(bullet));
                        }
                    }
                }
            } else {
                w.ents[i].fire_rate = Some(FireRate { timer });
            }
        }
        proof {
            lemma_fire_count_bounds(pre, input, dt as int);
            assert(old(w).ents@.take(i as int + 1).drop_last() =~= pre);
            assert(old(w).ents@.take(i as int + 1).last() == old(w).ents@[i as int]);
            assert(w.ents@[i as int] == player_ent(old(w).ents@[i as int], input, dt as int));
            assert(w.spawns@.take(old(w).spawns@.len() as int) =~= old(w).spawns@);
        }
        i += 1;
    }
    proof {
        assert(old(w).ents@.take(n as int) =~= old(w).ents@);
        assert(w.ents@ =~= old(w).ents@.map_values(
            |e: EntitySlot| player_ent(e, input, dt as int),
        ));
    }
}

/// The entity the player starts as: at the origin and at rest, with full
/// health, an un-elapsed fire cooldown (so the first shot waits out one
/// cooldown), and the camera following it.
pub open spec fn player_start_slot() -> EntitySlot {
    EntitySlot {
        acceleration: Some(Acceleration { vector: Vec2 { x: 0, y: 0 } }),
        velocity: Some(Velocity { vector: Vec2 { x: 0, y: 0 } }),
        position: Some(Position { vector: Vec2 { x: 0, y: 0 } }),
        destructable: Some(crate::health::Destructable { health: PLAYER_HEALTH }),
        fire_rate: Some(
            FireRate {
                timer: Timer {
                    duration_ms: FIRE_COOLDOWN_MS,
                    elapsed_ms: 0,
                    mode: TimerMode::Once,
                    just_finished: false,
                },
            },
        ),
        drag: Some(crate::movement::Drag { value: PLAYER_DRAG }),
        player_controlled: Some(PlayerControlled { speed: PLAYER_SPEED }),
        sprite_size: Some(Vec2 { x: PLAYER_SIZE, y: PLAYER_SIZE }),
        transform: Some(
            crate::math::Transform {
                translation: crate::math::Vec3 { x: 0, y: 0, z: 0 },
                scale_num: 1,
                scale_den: 1,
            },
        ),
        camera_target: true,
        ..crate::world::empty_slot()
    }
}

/// Spawns the player at startup and returns its entity id.
pub fn setup(w: &mut World) -> (id: usize)
    ensures
        final(w).ents@ == old(w).ents@.push(player_start_slot()),
        id == old(w).ents@.len(),
        final(w).spawner == old(w).spawner,
        final(w).despawns@ == old(w).despawns@,
        final(w).spawns@ == old(w).spawns@,
{
    let base = crate::world::EntitySlot::empty();
    let slot = EntitySlot {
        acceleration: Some(Acceleration { vector: Vec2 { x: 0, y: 0 } }),
        velocity: Some(Velocity { vector: Vec2 { x: 0, y: 0 } }),
        position: Some(Position { vector: Vec2 { x: 0, y: 0 } }),
        destructable: Some(crate::health::Destructable { health: PLAYER_HEALTH }),
        fire_rate: Some(
            FireRate {
                timer: Timer {
                    duration_ms: FIRE_COOLDOWN_MS,
                    elapsed_ms: 0,
                    mode: TimerMode::Once,
                    just_finished: false,
                },
            },
        ),
        drag: Some(crate::movement::Drag { value: PLAYER_DRAG }),
        player_controlled: Some(PlayerControlled { speed: PLAYER_SPEED }),
        sprite_size: Some(Vec2 { x: PLAYER_SIZE, y: PLAYER_SIZE }),
        transform: Some(
            crate::math::Transform {
                translation: crate::math::Vec3 { x: 0, y: 0, z: 0 },
                scale_num: 1,
                scale_den: 1,
            },
        ),
        camera_target: true,
        ..base
    };
    w.spawn(slot)
}

} // verus!
