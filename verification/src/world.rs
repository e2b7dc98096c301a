//! Explicit entity-component storage with deferred structural mutation.
//!
//! An entity is a row of optional components plus boolean tag flags, keyed by
//! its index in the entity table. Despawns and spawns produced while a system
//! iterates are buffered in the world and applied by [`World::flush`] once
//! every system of the tick has run, so no system ever observes a
//! half-removed entity. Despawn requests are idempotent: despawning an
//! already-despawned entity is a no-op, never an error.

use vstd::prelude::*;

use crate::bullet::BulletBundle;
use crate::bullet::Collider;
use crate::bullet::SelfDestruct;
use crate::enemy::EnemyBundle;
use crate::enemy::EnemySpawner;
use crate::health::Destructable;
use crate::math::Transform;
use crate::math::Vec2;
use crate::math::Vec3;
use crate::movement::Acceleration;
use crate::movement::Drag;
use crate::movement::Position;
use crate::movement::Velocity;
use crate::player::FireRate;
use crate::player::PlayerControlled;

verus! {

/// One entity: a bag of independently attachable components. A missing
/// component simply excludes the entity from the systems that read it.
#[derive(Clone, Copy, PartialEq, Eq, Structural, Debug)]
pub struct EntitySlot {
    /// False once the entity has been despawned; a dead slot is never
    /// matched by any system and its index is never reused.
    pub alive: bool,
    pub position: Option<Position>,
    pub velocity: Option<Velocity>,
    pub acceleration: Option<Acceleration>,
    pub drag: Option<Drag>,
    pub collider: Option<Collider>,
    /// The visual size the renderer draws this entity with; the collider
    /// resync derives its half-extents from it.
    pub sprite_size: Option<Vec2>,
    pub transform: Option<Transform>,
    pub destructable: Option<Destructable>,
    pub self_destruct: Option<SelfDestruct>,
    pub fire_rate: Option<FireRate>,
    pub player_controlled: Option<PlayerControlled>,
    pub player_attack: bool,
    pub enemy: bool,
    pub camera2d: bool,
    pub camera_target: bool,
    pub next_camera_target: bool,
}

impl EntitySlot {
    /// A live entity with no components attached.
    pub fn empty() -> (e: EntitySlot)
        ensures
            e == empty_slot(),
    {
        EntitySlot {
            alive: true,
            position: None,
            velocity: None,
            acceleration: None,
            drag: None,
            collider: None,
            sprite_size: None,
            transform: None,
            destructable: None,
            self_destruct: None,
            fire_rate: None,
            player_controlled: None,
            player_attack: false,
            enemy: false,
            camera2d: false,
            camera_target: false,
            next_camera_target: false,
        }
    }
}

/// A live entity with no components attached.
pub open spec fn empty_slot() -> EntitySlot {
    EntitySlot {
        alive: true,
        position: None,
        velocity: None,
        acceleration: None,
        drag: None,
        collider: None,
        sprite_size: None,
        transform: None,
        destructable: None,
        self_destruct: None,
        fire_rate: None,
        player_controlled: None,
        player_attack: false,
        enemy: false,
        camera2d: false,
        camera_target: false,
        next_camera_target: false,
    }
}

/// The slot after the entity is removed from the simulation.
pub open spec fn killed(e: EntitySlot) -> EntitySlot {
    EntitySlot { alive: false, ..e }
}

/// A buffered structural spawn, realized at flush time.
#[derive(Clone, Copy, PartialEq, Eq, Structural, Debug)]
pub enum SpawnRequest {
    Bullet(BulletBundle),
    Enemy(EnemyBundle),
}

/// The entity a buffered spawn turns into: the bundle's components, plus a
/// renderable transform placed at the bundle's position with unit scale.
pub open spec fn slot_of_request(r: SpawnRequest) -> EntitySlot {
    match r {
        SpawnRequest::Bullet(b) => EntitySlot {
            position: Some(b.position),
            velocity: Some(b.velocity),
            collider: Some(b.collider),
            self_destruct: Some(b.self_destruct),
            sprite_size: Some(b.sprite_size),
            player_attack: true,
            transform: Some(Transform {
                translation: Vec3 { x: b.position.vector.x, y: b.position.vector.y, z: 0 },
                scale_num: 1,
                scale_den: 1,
            }),
            ..empty_slot()
        },
        SpawnRequest::Enemy(e) => EntitySlot {
            position: Some(e.position),
            velocity: Some(e.velocity),
            collider: Some(e.collider),
            destructable: Some(e.destructable),
            sprite_size: Some(e.sprite_size),
            enemy: true,
            transform: Some(Transform {
                translation: Vec3 { x: e.position.vector.x, y: e.position.vector.y, z: 0 },
                scale_num: 1,
                scale_den: 1,
            }),
            ..empty_slot()
        },
    }
}

/// The entity table after every id in `q` has been despawned. An id occurs
/// killed exactly when it is in `q`, however many times it was requested.
pub open spec fn apply_despawns(s: Seq<EntitySlot>, q: Seq<usize>) -> Seq<EntitySlot> {
    s.map(|i: int, e: EntitySlot| if q.contains(i as usize) { killed(e) } else { e })
}

/// The slots that a run of buffered spawns appends.
pub open spec fn spawned_slots(reqs: Seq<SpawnRequest>) -> Seq<EntitySlot> {
    reqs.map_values(|r: SpawnRequest| slot_of_request(r))
}

/// The whole simulation state: the entity table, the process-wide enemy
/// spawner, and the buffers of pending structural changes.
pub struct World {
    pub ents: Vec<EntitySlot>,
    pub spawner: EnemySpawner,
    pub despawns: Vec<usize>,
    pub spawns: Vec<SpawnRequest>,
}

impl World {
    /// A world with no entities, no pending structural changes, and the
    /// given enemy-spawner timer.
    pub fn new(spawner: EnemySpawner) -> (w: World)
        ensures
            w.ents@ =~= Seq::<EntitySlot>::empty(),
            w.spawner == spawner,
            w.despawns@ =~= Seq::<usize>::empty(),
            w.spawns@ =~= Seq::<SpawnRequest>::empty(),
    {
        World { ents: Vec::new(), spawner, despawns: Vec::new(), spawns: Vec::new() }
    }

    /// Spawns an entity immediately (startup-time spawning, outside any
    /// system iteration) and returns its id.
    pub fn spawn(&mut self, slot: EntitySlot) -> (id: usize)
        ensures
            final(self).ents@ == old(self).ents@.push(slot),
            id == old(self).ents@.len(),
            final(self).spawner == old(self).spawner,
            final(self).despawns@ == old(self).despawns@,
            final(self).spawns@ == old(self).spawns@,
    {
        let id = self.ents.len();
        self.ents.push(slot);
        id
    }

    /// Requests that `id` be removed at the next flush. Requesting the same
    /// id again is harmless: the flush removes it once.
    pub fn request_despawn(&mut self, id: usize)
        ensures
            final(self).despawns@ == old(self).despawns@.push(id),
            final(self).ents@ == old(self).ents@,
            final(self).spawner == old(self).spawner,
            final(self).spawns@ == old(self).spawns@,
    {
        self.despawns.push(id);
    }

    /// Buffers a spawn to be realized at the next flush.
    pub fn queue_spawn(&mut self, req: SpawnRequest)
        ensures
            final(self).spawns@ == old(self).spawns@.push(req),
            final(self).ents@ == old(self).ents@,
            final(self).spawner == old(self).spawner,
            final(self).despawns@ == old(self).despawns@,
    {
        self.spawns.push(req);
    }

    /// Applies every buffered structural change: all requested despawns take
    /// effect (each at most once, whatever was requested), then the buffered
    /// spawns are appended in request order, and both buffers empty.
    pub fn flush(&mut self)
        ensures
            final(self).ents@ == apply_despawns(old(self).ents@, old(self).despawns@) + spawned_slots(
                old(self).spawns@,
            ),
            final(self).spawner == old(self).spawner,
            final(self).despawns@ =~= Seq::<usize>::empty(),
            final(self).spawns@ =~= Seq::<SpawnRequest>::empty(),
    {
        let ghost s0 = self.ents@;
        let ghost q = self.despawns@;
        proof {
            assert(s0.len() == old(self).ents.len());
        }
        let mut k: usize = 0;
        while k < self.despawns.len()
            invariant
                k <= self.despawns@.len(),
                self.despawns@ == q,
                self.ents@ =~= apply_despawns(s0, q.take(k as int)),
                self.spawner == old(self).spawner,
                self.spawns@ == old(self).spawns@,
            decreases self.despawns@.len() - k,
        {
            let id = self.despawns[k];
            if id < self.ents.len() {
                self.ents[id].alive = false;
            }
            proof {
                lemma_apply_despawns_step(s0, q, k as int);
                assert(self.ents@ =~= apply_despawns(s0, q.take(k as int + 1)));
            }
            k += 1;
        }
        self.despawns.clear();
        proof {
            assert(q.take(q.len() as int) =~= q);
        }
        let ghost reqs = self.spawns@;
        let mut j: usize = 0;
        while j < self.spawns.len()
            invariant
                j <= self.spawns@.len(),
                self.spawns@ == reqs,
                self.ents@ =~= apply_despawns(s0, q) + spawned_slots(reqs.take(j as int)),
                self.spawner == old(self).spawner,
                self.despawns@.len() == 0,
            decreases self.spawns@.len() - j,
        {
            let req = self.spawns[j];
            let slot = realize_request(&req);
            self.ents.push(slot);
            proof {
                assert(spawned_slots(reqs.take(j as int + 1)) =~= spawned_slots(
                    reqs.take(j as int),
                ).push(slot_of_request(reqs[j as int])));
            }
            j += 1;
        }
        self.spawns.clear();
        proof {
            assert(reqs.take(reqs.len() as int) =~= reqs);
        }
    }
}

/// One despawn taken from the queue moves the table one step along
/// [`apply_despawns`].
proof fn lemma_apply_despawns_step(s: Seq<EntitySlot>, q: Seq<usize>, k: int)
    requires
        0 <= k < q.len(),
        s.len() <= usize::MAX,
    ensures
        q[k] < s.len() ==> apply_despawns(s, q.take(k + 1)) =~= apply_despawns(
            s,
            q.take(k),
        ).update(q[k] as int, killed(apply_despawns(s, q.take(k))[q[k] as int])),
        q[k] >= s.len() ==> apply_despawns(s, q.take(k + 1)) =~= apply_despawns(s, q.take(k)),
{
    assert forall|v: usize| #[trigger] q.take(k + 1).contains(v) == (q.take(k).contains(v) || v
        == q[k]) by {
        if q.take(k + 1).contains(v) {
            let idx = choose|idx: int| 0 <= idx < k + 1 && #[trigger] q.take(k + 1)[idx] == v;
            if idx < k {
                assert(q.take(k)[idx] == v);
            }
        }
        if q.take(k).contains(v) {
            let idx = choose|idx: int| 0 <= idx < k && #[trigger] q.take(k)[idx] == v;
            assert(q.take(k + 1)[idx] == v);
        }
        if v == q[k] {
            assert(q.take(k + 1)[k] == v);
        }
    }
    if q[k] < s.len() {
        let a1 = apply_despawns(s, q.take(k + 1));
        let a2 = apply_despawns(s, q.take(k));
        assert forall|i: int| 0 <= i < s.len() implies #[trigger] a1[i] == a2.update(
            q[k] as int,
            killed(a2[q[k] as int]),
        )[i] by {
            assert(q.take(k + 1).contains(i as usize) == (q.take(k).contains(i as usize) || i
                as usize == q[k]));
        }
    }
}

/// Builds the entity a buffered spawn stands for.
fn realize_request(req: &SpawnRequest) -> (e: EntitySlot)
    ensures
        e == slot_of_request(*req),
{
    let base = EntitySlot::empty();
    match req {
        SpawnRequest::Bullet(b) => EntitySlot {
            position: Some(b.position),
            velocity: Some(b.velocity),
            collider: Some(b.collider),
            self_destruct: Some(b.self_destruct),
            sprite_size: Some(b.sprite_size),
            player_attack: true,
            transform: Some(Transform {
                translation: Vec3 { x: b.position.vector.x, y: b.position.vector.y, z: 0 },
                scale_num: 1,
                scale_den: 1,
            }),
            ..base
        },
        SpawnRequest::Enemy(en) => EntitySlot {
            position: Some(en.position),
            velocity: Some(en.velocity),
            collider: Some(en.collider),
            destructable: Some(en.destructable),
            sprite_size: Some(en.sprite_size),
            enemy: true,
            transform: Some(Transform {
                translation: Vec3 { x: en.position.vector.x, y: en.position.vector.y, z: 0 },
                scale_num: 1,
                scale_den: 1,
            }),
            ..base
        },
    }
}

/// Requesting the despawn of the same entity twice produces exactly the same
/// flush outcome as requesting it once: the duplicate is a no-op.
pub proof fn lemma_despawn_idempotent(s: Seq<EntitySlot>, q: Seq<usize>, id: usize)
    requires
        q.contains(id),
    ensures
        apply_despawns(s, q.push(id)) =~= apply_despawns(s, q),
{
    assert forall|v: usize| #[trigger] q.push(id).contains(v) == q.contains(v) by {
        if q.push(id).contains(v) {
            let idx = choose|idx: int| 0 <= idx < q.len() + 1 && #[trigger] q.push(id)[idx] == v;
            if idx < q.len() {
                assert(q[idx] == v);
            }
        }
        if q.contains(v) {
            let idx = choose|idx: int| 0 <= idx < q.len() && #[trigger] q[idx] == v;
            assert(q.push(id)[idx] == v);
        }
    }
}

} // verus!
