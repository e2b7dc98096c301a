//! Enemy components and the periodic enemy spawner.

use vstd::prelude::*;

use crate::bullet::Collider;
use crate::health::Destructable;
use crate::math::Aabb2d;
use crate::math::Vec2;
use crate::movement::Position;
use crate::movement::Velocity;
use crate::rng::random_in_range;
use crate::timer::Timer;
use crate::world::SpawnRequest;
use crate::world::World;

verus! {

/// Half-width of the square region a fresh enemy may appear in.
pub const ENEMY_AREA_HALF: i64 = 200;

/// Bound on the magnitude of each axis of a fresh enemy's velocity.
pub const ENEMY_SPEED_HALF: i64 = 20;

/// Health a fresh enemy starts with.
pub const ENEMY_HEALTH: i32 = 100;

/// Visual size (both axes) a fresh enemy is drawn with.
pub const ENEMY_SIZE: i64 = 40;

/// Period of the repeating enemy-spawner timer, in milliseconds.
pub const ENEMY_SPAWN_PERIOD_MS: i64 = 2000;

/// Marks entities that a projectile can destroy on contact.
#[derive(Clone, Copy, PartialEq, Eq, Structural, Debug)]
pub struct Enemy;

/// Everything a newly spawned enemy carries.
#[derive(Clone, Copy, PartialEq, Eq, Structural, Debug)]
pub struct EnemyBundle {
    pub enemy: Enemy,
    pub velocity: Velocity,
    pub position: Position,
    pub destructable: Destructable,
    pub collider: Collider,
    pub sprite_size: Vec2,
}

/// Process-wide resource: the repeating countdown that triggers a fresh
/// enemy each time it completes.
#[derive(Clone, Copy, PartialEq, Eq, Structural, Debug)]
pub struct EnemySpawner {
    pub timer: Timer,
}

/// The bundle a fresh enemy spawns with, as a function of its drawn position
/// and velocity: full health, the standard visual size, and a collider that
/// starts as a degenerate box at the origin until the first collider resync
/// recenters it.
pub open spec fn enemy_bundle(px: i64, py: i64, vx: i64, vy: i64) -> EnemyBundle {
    EnemyBundle {
        enemy: Enemy,
        velocity: Velocity { vector: Vec2 { x: vx, y: vy } },
        position: Position { vector: Vec2 { x: px, y: py } },
        destructable: Destructable { health: ENEMY_HEALTH },
        collider: Collider {
            aabb: Aabb2d { min: Vec2 { x: 0, y: 0 }, max: Vec2 { x: 0, y: 0 } },
        },
        sprite_size: Vec2 { x: ENEMY_SIZE, y: ENEMY_SIZE },
    }
}

/// Whether a spawn request is a fresh enemy whose drawn position and
/// velocity lie within the spawning bounds.
pub open spec fn is_enemy_spawn(req: SpawnRequest) -> bool {
    exists|px: i64, py: i64, vx: i64, vy: i64|
        {
            &&& -ENEMY_AREA_HALF <= px <= ENEMY_AREA_HALF
            &&& -ENEMY_AREA_HALF <= py <= ENEMY_AREA_HALF
            &&& -ENEMY_SPEED_HALF <= vx <= ENEMY_SPEED_HALF
            &&& -ENEMY_SPEED_HALF <= vy <= ENEMY_SPEED_HALF
            &&& req == SpawnRequest::Enemy(#[trigger] enemy_bundle(px, py, vx, vy))
        }
}

/// Builds the bundle for a fresh enemy from its drawn position and velocity.
pub fn make_enemy(px: i64, py: i64, vx: i64, vy: i64) -> (b: EnemyBundle)
    ensures
        b == enemy_bundle(px, py, vx, vy),
{
    EnemyBundle {
        enemy: Enemy,
        velocity: Velocity { vector: Vec2 { x: vx, y: vy } },
        position: Position { vector: Vec2 { x: px, y: py } },
        destructable: Destructable { health: ENEMY_HEALTH },
        collider: Collider {
            aabb: Aabb2d { min: Vec2 { x: 0, y: 0 }, max: Vec2 { x: 0, y: 0 } },
        },
        sprite_size: Vec2 { x: ENEMY_SIZE, y: ENEMY_SIZE },
    }
}

/// Queues one fresh enemy, at a position drawn from the bounded square
/// spawning region with a velocity drawn from the bounded range.
pub fn initialize_enemy(w: &mut World)
    ensures
        final(w).ents@ == old(w).ents@,
        final(w).despawns@ == old(w).despawns@,
        final(w).spawner == old(w).spawner,
        final(w).spawns@.len() == old(w).spawns@.len() + 1,
        final(w).spawns@ == old(w).spawns@.push(final(w).spawns@.last()),
        is_enemy_spawn(final(w).spawns@.last()),
{
    let px = random_in_range(-ENEMY_AREA_HALF, ENEMY_AREA_HALF);
    let py = random_in_range(-ENEMY_AREA_HALF, ENEMY_AREA_HALF);
    let vx = random_in_range(-ENEMY_SPEED_HALF, ENEMY_SPEED_HALF);
    let vy = random_in_range(-ENEMY_SPEED_HALF, ENEMY_SPEED_HALF);
    let bundle = make_enemy(px, py, vx, vy);
    w.queue_spawn(SpawnRequest::Enemy(bundle));
}

/// Advances the process-wide spawner timer; each time it completes a period
/// (it repeats), one fresh enemy is queued.
pub fn enemy_spawner(w: &mut World, dt: i64)
    requires
        dt >= 0,
        old(w).spawner.timer.wf(),
        old(w).spawner.timer.elapsed_ms + dt <= i64::MAX,
    ensures
        final(w).spawner.timer == old(w).spawner.timer.ticked(dt as int),
        final(w).ents@ == old(w).ents@,
        final(w).despawns@ == old(w).despawns@,
        old(w).spawner.timer.ticked(dt as int).just_finished ==> {
            &&& final(w).spawns@.len() == old(w).spawns@.len() + 1
            &&& final(w).spawns@ == old(w).spawns@.push(final(w).spawns@.last())
            &&& is_enemy_spawn(final(w).spawns@.last())
        },
        !old(w).spawner.timer.ticked(dt as int).just_finished ==> final(w).spawns@ == old(
            w,
        ).spawns@,
{
    w.spawner.timer.tick(dt);
    if w.spawner.timer.just_finished {
        initialize_enemy(w);
    }
}

} // verus!
