//! Projectile components: the collider, the projectile tag, the self-destruct
//! timer, and the bundle a fired projectile spawns with.

use vstd::prelude::*;

use crate::math::aabb_overlaps;
use crate::math::Aabb2d;
use crate::math::Vec2;
use crate::movement::Position;
use crate::movement::Velocity;
use crate::timer::Timer;
use crate::world::EntitySlot;
use crate::world::World;

verus! {

/// An axis-aligned bounding box, recomputed every step from the entity's
/// position and visual half-extents.
#[derive(Clone, Copy, PartialEq, Eq, Structural, Debug)]
pub struct Collider {
    pub aabb: Aabb2d,
}

/// Marks entities that damage an enemy on contact.
#[derive(Clone, Copy, PartialEq, Eq, Structural, Debug)]
pub struct PlayerAttack;

/// A one-shot countdown; the owning entity despawns when it completes.
#[derive(Clone, Copy, PartialEq, Eq, Structural, Debug)]
pub struct SelfDestruct {
    pub timer: Timer,
}

/// Everything a newly fired projectile carries. `sprite_size` is the visual
/// size the renderer draws and the collider resync reads.
#[derive(Clone, Copy, PartialEq, Eq, Structural, Debug)]
pub struct BulletBundle {
    pub player_attack: PlayerAttack,
    pub velocity: Velocity,
    pub collider: Collider,
    pub position: Position,
    pub self_destruct: SelfDestruct,
    pub sprite_size: Vec2,
}

/// Entities carrying a self-destruct timer.
pub open spec fn sd_matched(e: EntitySlot) -> bool {
    e.alive && e.self_destruct is Some
}

/// The self-destruct tick on this entity stays well formed and in range.
pub open spec fn sd_fits(e: EntitySlot, dt: int) -> bool {
    sd_matched(e) ==> {
        &&& e.self_destruct->0.timer.wf()
        &&& e.self_destruct->0.timer.elapsed_ms + dt <= i64::MAX
    }
}

/// One entity after its self-destruct timer is advanced by `dt`.
pub open spec fn sd_ent(e: EntitySlot, dt: int) -> EntitySlot {
    if sd_matched(e) {
        EntitySlot {
            self_destruct: Some(SelfDestruct { timer: e.self_destruct->0.timer.ticked(dt) }),
            ..e
        }
    } else {
        e
    }
}

/// Whether this entity's self-destruct timer completes within this tick —
/// that is, the cumulative elapsed time first reaches the duration now, or
/// already had.
pub open spec fn sd_fires(e: EntitySlot, dt: int) -> bool {
    sd_matched(e) && e.self_destruct->0.timer.ticked(dt).spec_finished()
}

/// The despawn requests the self-destruct pass pushes: every entity whose
/// ticked timer reports finished, in entity order.
pub open spec fn sd_requests(s: Seq<EntitySlot>, dt: int) -> Seq<usize>
    decreases s.len(),
{
    if s.len() == 0 {
        Seq::empty()
    } else {
        sd_requests(s.drop_last(), dt) + if sd_fires(s.last(), dt) {
            seq![(s.len() - 1) as usize]
        } else {
            Seq::empty()
        }
    }
}

/// An id is requested by the self-destruct pass exactly when that entity's
/// ticked timer is finished.
pub proof fn lemma_sd_requests_contains(s: Seq<EntitySlot>, dt: int, id: usize)
    requires
        s.len() <= usize::MAX,
    ensures
        sd_requests(s, dt).contains(id) <==> id < s.len() && sd_fires(s[id as int], dt),
    decreases s.len(),
{
    if s.len() > 0 {
        lemma_sd_requests_contains(s.drop_last(), dt, id);
        let head = sd_requests(s.drop_last(), dt);
        let tail: Seq<usize> = if sd_fires(s.last(), dt) {
            seq![(s.len() - 1) as usize]
        } else {
            Seq::empty()
        };
        assert(sd_requests(s, dt) == head + tail);
        if head.contains(id) {
            let k = choose|k: int| 0 <= k < head.len() && #[trigger] head[k] == id;
            assert((head + tail)[k] == id);
        }
        if id < s.len() && sd_fires(s[id as int], dt) && id == s.len() - 1 {
            assert(tail[0] == id);
            assert((head + tail)[head.len() as int] == id);
        }
        if sd_requests(s, dt).contains(id) {
            let k = choose|k: int|
                0 <= k < sd_requests(s, dt).len() && #[trigger] sd_requests(s, dt)[k] == id;
            if k < head.len() {
                assert(head[k] == id);
            } else {
                assert(tail[k - head.len()] == id);
                assert(id == (s.len() - 1) as usize && sd_fires(s.last(), dt));
            }
        }
    }
}

/// Advances every self-destruct timer by `dt` milliseconds and requests the
/// despawn of every entity whose timer has completed. The timer is one-shot:
/// the entity is removed at the flush, before it could be observed finished
/// twice.
pub fn process_self_destruct(w: &mut World, dt: i64)
    requires
        dt >= 0,
        forall|j: int| 0 <= j < old(w).ents@.len() ==> sd_fits(#[trigger] old(w).ents@[j], dt as int),
    ensures
        final(w).ents@ == old(w).ents@.map_values(|e: EntitySlot| sd_ent(e, dt as int)),
        final(w).despawns@ == old(w).despawns@ + sd_requests(old(w).ents@, dt as int),
        final(w).spawner == old(w).spawner,
        final(w).spawns@ == old(w).spawns@,
{
    let n = w.ents.len();
    let mut i: usize = 0;
    while i < n
        invariant
            i <= n,
            n == w.ents@.len(),
            w.ents@.len() == old(w).ents@.len(),
            dt >= 0,
            forall|j: int|
                0 <= j < old(w).ents@.len() ==> sd_fits(#[trigger] old(w).ents@[j], dt as int),
            forall|j: int|
                0 <= j < i ==> w.ents@[j] == sd_ent(#[trigger] old(w).ents@[j], dt as int),
            forall|j: int| i <= j < n ==> w.ents@[j] == old(w).ents@[j],
            w.despawns@ == old(w).despawns@ + sd_requests(
                old(w).ents@.take(i as int),
                dt as int,
            ),
            w.spawner == old(w).spawner,
            w.spawns@ == old(w).spawns@,
        decreases n - i,
    {
        let ghost pre = old(w).ents@.take(i as int);
        let e = w.ents[i];
        if e.alive && e.self_destruct.is_some() {
            let mut timer = e.self_destruct.unwrap().timer;
            timer.tick(dt);
            w.ents[i].self_destruct = Some(SelfDestruct { timer });
            if timer.finished() {
                let id = i;
                w.despawns.push(id);
            }
        }
        proof {
            assert(old(w).ents@.take(i as int + 1).drop_last() =~= pre);
            assert(old(w).ents@.take(i as int + 1).last() == old(w).ents@[i as int]);
            if sd_fires(old(w).ents@[i as int], dt as int) {
                assert(w.despawns@ =~= old(w).despawns@ + sd_requests(
                    old(w).ents@.take(i as int + 1),
                    dt as int,
                ));
            } else {
                assert(sd_requests(old(w).ents@.take(i as int + 1), dt as int) =~= sd_requests(
                    pre,
                    dt as int,
                ));
            }
        }
        i += 1;
    }
    proof {
        assert(old(w).ents@.take(n as int) =~= old(w).ents@);
        assert(w.ents@ =~= old(w).ents@.map_values(|e: EntitySlot| sd_ent(e, dt as int)));
    }
}

/// A self-destruct timer of duration `T`, ticked frame by frame, has its
/// entity's despawn requested on the frame where the cumulative elapsed time
/// first reaches `T`, and not before: after any run of earlier frames
/// totalling `t` and a current frame of `dt`, the pass requests the despawn
/// exactly when `t + dt >= T`.
pub proof fn lemma_self_destruct_cumulative(
    s: Seq<EntitySlot>,
    id: usize,
    t0: Timer,
    dts: Seq<int>,
    dt: int,
)
    requires
        s.len() <= usize::MAX,
        id < s.len(),
        t0.wf(),
        t0.mode == crate::timer::TimerMode::Once,
        t0.elapsed_ms == 0,
        forall|i: int| 0 <= i < dts.len() ==> dts[i] >= 0,
        dt >= 0,
        s[id as int].alive,
        s[id as int].self_destruct == Some(
            SelfDestruct { timer: crate::timer::ticked_all(t0, dts) },
        ),
    ensures
        sd_requests(s, dt).contains(id) <==> crate::timer::sum_ms(dts) + dt >= t0.duration_ms,
{
    crate::timer::lemma_once_timer_cumulative(t0, dts);
    lemma_sd_requests_contains(s, dt, id);
}

/// Entities a projectile scan reads: live, tagged as a player attack, with a
/// collider.
pub open spec fn bullet_matched(e: EntitySlot) -> bool {
    e.alive && e.player_attack && e.collider is Some
}

/// Entities an enemy scan reads: live, tagged as an enemy, with a collider.
pub open spec fn enemy_matched(e: EntitySlot) -> bool {
    e.alive && e.enemy && e.collider is Some
}

/// The despawn requests one projectile produces against the enemies with
/// index below `m`: for each overlapping enemy, the projectile's id then the
/// enemy's id.
pub open spec fn hit_row(s: Seq<EntitySlot>, b: EntitySlot, bid: usize, m: int) -> Seq<usize>
    decreases m,
{
    if m <= 0 {
        Seq::empty()
    } else {
        hit_row(s, b, bid, m - 1) + if enemy_matched(s[m - 1]) && aabb_overlaps(
            b.collider->0.aabb,
            s[m - 1].collider->0.aabb,
        ) {
            seq![bid, (m - 1) as usize]
        } else {
            Seq::empty()
        }
    }
}

/// The despawn requests of the full pairwise scan of the projectiles with
/// index below `k` against every enemy.
pub open spec fn collision_requests(s: Seq<EntitySlot>, k: int) -> Seq<usize>
    decreases k,
{
    if k <= 0 {
        Seq::empty()
    } else {
        collision_requests(s, k - 1) + if bullet_matched(s[k - 1]) {
            hit_row(s, s[k - 1], (k - 1) as usize, s.len() as int)
        } else {
            Seq::empty()
        }
    }
}

/// Whether the collision scan kills this entity: it is a projectile
/// overlapping some enemy, or an enemy overlapping some projectile.
pub open spec fn collision_despawned(s: Seq<EntitySlot>, id: usize) -> bool {
    id < s.len() && {
        ||| bullet_matched(s[id as int]) && exists|j: int|
            0 <= j < s.len() && enemy_matched(#[trigger] s[j]) && aabb_overlaps(
                s[id as int].collider->0.aabb,
                s[j].collider->0.aabb,
            )
        ||| enemy_matched(s[id as int]) && exists|j: int|
            0 <= j < s.len() && bullet_matched(#[trigger] s[j]) && aabb_overlaps(
                s[j].collider->0.aabb,
                s[id as int].collider->0.aabb,
            )
    }
}

/// An id stands in one projectile's scan row exactly when it is that
/// projectile facing some overlapping enemy below `m`, or an overlapped
/// enemy below `m` itself.
proof fn lemma_hit_row_contains(s: Seq<EntitySlot>, b: EntitySlot, bid: usize, m: int, id: usize)
    requires
        s.len() <= usize::MAX,
        0 <= m <= s.len(),
    ensures
        hit_row(s, b, bid, m).contains(id) <==> {
            ||| (id == bid && exists|j: int|
                0 <= j < m && enemy_matched(#[trigger] s[j]) && aabb_overlaps(
                    b.collider->0.aabb,
                    s[j].collider->0.aabb,
                ))
            ||| (id < m && enemy_matched(s[id as int]) && aabb_overlaps(
                b.collider->0.aabb,
                s[id as int].collider->0.aabb,
            ))
        },
    decreases m,
{
    if m > 0 {
        lemma_hit_row_contains(s, b, bid, m - 1, id);
        let head = hit_row(s, b, bid, m - 1);
        let hit = enemy_matched(s[m - 1]) && aabb_overlaps(
            b.collider->0.aabb,
            s[m - 1].collider->0.aabb,
        );
        let tail: Seq<usize> = if hit {
            seq![bid, (m - 1) as usize]
        } else {
            Seq::empty()
        };
        assert(hit_row(s, b, bid, m) == head + tail);
        if head.contains(id) {
            let k = choose|k: int| 0 <= k < head.len() && #[trigger] head[k] == id;
            assert((head + tail)[k] == id);
        }
        if hit && id == bid {
            assert((head + tail)[head.len() as int] == id);
        }
        if hit && id == m - 1 {
            assert((head + tail)[head.len() as int + 1] == id);
        }
        if hit_row(s, b, bid, m).contains(id) {
            let k = choose|k: int|
                0 <= k < hit_row(s, b, bid, m).len() && #[trigger] hit_row(s, b, bid, m)[k] == id;
            if k < head.len() {
                assert(head[k] == id);
            } else {
                assert(tail[k - head.len()] == id);
            }
        }
    }
}

/// An id is requested by the scan over the projectiles below `k` exactly
/// when it is such a projectile overlapping some enemy, or an enemy
/// overlapped by such a projectile.
proof fn lemma_collision_requests_upto(s: Seq<EntitySlot>, k: int, id: usize)
    requires
        s.len() <= usize::MAX,
        0 <= k <= s.len(),
    ensures
        collision_requests(s, k).contains(id) <==> {
            ||| (id < k && bullet_matched(s[id as int]) && exists|j: int|
                0 <= j < s.len() && enemy_matched(#[trigger] s[j]) && aabb_overlaps(
                    s[id as int].collider->0.aabb,
                    s[j].collider->0.aabb,
                ))
            ||| (id < s.len() && enemy_matched(s[id as int]) && exists|j: int|
                0 <= j < k && bullet_matched(#[trigger] s[j]) && aabb_overlaps(
                    s[j].collider->0.aabb,
                    s[id as int].collider->0.aabb,
                ))
        },
    decreases k,
{
    if k > 0 {
        lemma_collision_requests_upto(s, k - 1, id);
        let head = collision_requests(s, k - 1);
        let row: Seq<usize> = if bullet_matched(s[k - 1]) {
            hit_row(s, s[k - 1], (k - 1) as usize, s.len() as int)
        } else {
            Seq::empty()
        };
        assert(collision_requests(s, k) == head + row);
        lemma_hit_row_contains(s, s[k - 1], (k - 1) as usize, s.len() as int, id);
        if head.contains(id) {
            let q = choose|q: int| 0 <= q < head.len() && #[trigger] head[q] == id;
            assert((head + row)[q] == id);
        }
        if row.contains(id) {
            let q = choose|q: int| 0 <= q < row.len() && #[trigger] row[q] == id;
            assert((head + row)[head.len() as int + q] == id);
        }
        if collision_requests(s, k).contains(id) {
            let q = choose|q: int|
                0 <= q < collision_requests(s, k).len() && #[trigger] collision_requests(s, k)[q]
                    == id;
            if q < head.len() {
                assert(head[q] == id);
            } else {
                assert(row[q - head.len()] == id);
            }
        }
    }
}

/// The collision scan requests an id exactly when that entity is a member
/// of an overlapping projectile/enemy pair, whichever side it stands on.
pub proof fn lemma_collision_requests_contains(s: Seq<EntitySlot>, id: usize)
    requires
        s.len() <= usize::MAX,
    ensures
        collision_requests(s, s.len() as int).contains(id) <==> collision_despawned(s, id),
{
    lemma_collision_requests_upto(s, s.len() as int, id);
}

/// Scans every projectile against every enemy and requests the despawn of
/// both members of each overlapping pair. A projectile or enemy may be
/// matched against several counterparts in the same scan; the duplicate
/// despawn requests this produces are harmless because despawning is
/// idempotent. Collision kills the enemy directly, bypassing its health — the
/// health-driven death path is independent.
pub fn handle_collision(w: &mut World)
    ensures
        final(w).ents@ == old(w).ents@,
        final(w).despawns@ == old(w).despawns@ + collision_requests(
            old(w).ents@,
            old(w).ents@.len() as int,
        ),
        final(w).spawner == old(w).spawner,
        final(w).spawns@ == old(w).spawns@,
{
    let n = w.ents.len();
    let mut i: usize = 0;
    while i < n
        invariant
            i <= n,
            n == w.ents@.len(),
            w.ents@ == old(w).ents@,
            w.despawns@ == old(w).despawns@ + collision_requests(old(w).ents@, i as int),
            w.spawner == old(w).spawner,
            w.spawns@ == old(w).spawns@,
        decreases n - i,
    {
        let b = w.ents[i];
        if b.alive && b.player_attack && b.collider.is_some() {
            let ghost base = w.despawns@;
            let bullet_collider = b.collider.unwrap();
            let mut j: usize = 0;
            while j < n
                invariant
                    j <= n,
                    n == w.ents@.len(),
                    i < n,
                    w.ents@ == old(w).ents@,
                    b == old(w).ents@[i as int],
                    bullet_matched(b),
                    bullet_collider == b.collider->0,
                    w.despawns@ == base + hit_row(old(w).ents@, b, i, j as int),
                    w.spawner == old(w).spawner,
                    w.spawns@ == old(w).spawns@,
                decreases n - j,
            {
                let e = w.ents[j];
                if e.alive && e.enemy && e.collider.is_some() {
                    let enemy_collider = e.collider.unwrap();
                    if bullet_collider.aabb.intersects(&enemy_collider.aabb) {
                        w.despawns.push(i);
                        w.despawns.push(j);
                        proof {
                            assert(w.despawns@ =~= base + hit_row(
                                old(w).ents@,
                                b,
                                i,
                                j as int + 1,
                            ));
                        }
                    }
                }
                j += 1;
            }
            proof {
                assert(w.despawns@ =~= old(w).despawns@ + collision_requests(
                    old(w).ents@,
                    i as int + 1,
                ));
            }
        } else {
            proof {
                assert(w.despawns@ =~= old(w).despawns@ + collision_requests(
                    old(w).ents@,
                    i as int + 1,
                ));
            }
        }
        i += 1;
    }
}

} // verus!
