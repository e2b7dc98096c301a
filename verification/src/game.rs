//! The fixed wiring of the simulation: startup, and the ordered list of
//! per-frame systems. Each system depends on state written by its
//! predecessor, so the order is explicit and load-bearing: controller input
//! first, then timers and collision scans that queue structural changes,
//! then the camera passes, and a single flush that applies every queued
//! despawn and spawn once all systems of the frame have iterated.

use vstd::prelude::*;

use crate::bullet::collision_requests;
use crate::bullet::process_self_destruct;
use crate::bullet::sd_ent;
use crate::bullet::sd_fits;
use crate::bullet::sd_requests;
use crate::bullet::handle_collision;
use crate::camera::follow_ent;
use crate::camera::follow_fits;
use crate::camera::retarget_ent;
use crate::camera::update_camera_position;
use crate::camera::update_camera_target;
use crate::camera::CAMERA_RATE;
use crate::enemy::enemy_spawner;
use crate::enemy::initialize_enemy;
use crate::enemy::is_enemy_spawn;
use crate::enemy::EnemySpawner;
use crate::enemy::ENEMY_SPAWN_PERIOD_MS;
use crate::health::destroy_requests;
use crate::health::destroy_system;
use crate::player::apply_player_control;
use crate::player::fire_count;
use crate::player::player_ent;
use crate::player::player_fits;
use crate::player::spawned_by_some_firer;
use crate::player::PlayerInput;
use crate::timer::Timer;
use crate::timer::TimerMode;
use crate::world::apply_despawns;
use crate::world::slot_of_request;
use crate::world::spawned_slots;
use crate::world::EntitySlot;
use crate::world::SpawnRequest;
use crate::world::World;

verus! {

/// The entity table after the controller pass of a frame.
pub open spec fn after_player(s: Seq<EntitySlot>, input: PlayerInput, dt: int) -> Seq<EntitySlot> {
    s.map_values(|e: EntitySlot| player_ent(e, input, dt))
}

/// The entity table after the controller and self-destruct passes.
pub open spec fn after_timers(s: Seq<EntitySlot>, input: PlayerInput, dt: int) -> Seq<EntitySlot> {
    after_player(s, input, dt).map_values(|e: EntitySlot| sd_ent(e, dt))
}

/// The entity table after every entity-mutating pass of a frame but before
/// the flush: controller, self-destruct, camera retarget, camera follow.
pub open spec fn frame_ents(s: Seq<EntitySlot>, input: PlayerInput, dt: int) -> Seq<EntitySlot> {
    let s2 = after_timers(s, input, dt);
    let s3 = s2.map_values(|e: EntitySlot| retarget_ent(e, s2));
    s3.map_values(|e: EntitySlot| follow_ent(e, s3, dt))
}

/// The despawn requests one frame queues, in order: self-destructed
/// entities, both members of every colliding projectile/enemy pair, and
/// entities whose health ran out.
pub open spec fn frame_despawns(s: Seq<EntitySlot>, input: PlayerInput, dt: int) -> Seq<usize> {
    let s1 = after_player(s, input, dt);
    let s2 = after_timers(s, input, dt);
    sd_requests(s1, dt) + collision_requests(s2, s2.len() as int) + destroy_requests(s2)
}

/// Every arithmetic step of a frame stays inside `i64`, pass by pass.
pub open spec fn frame_fits(w: World, input: PlayerInput, dt: int) -> bool {
    let s = w.ents@;
    let s1 = after_player(s, input, dt);
    let s2 = after_timers(s, input, dt);
    let s3 = s2.map_values(|e: EntitySlot| retarget_ent(e, s2));
    &&& forall|j: int| 0 <= j < s.len() ==> player_fits(#[trigger] s[j], input, dt)
    &&& forall|j: int| 0 <= j < s1.len() ==> sd_fits(#[trigger] s1[j], dt)
    &&& w.spawner.timer.wf()
    &&& w.spawner.timer.elapsed_ms + dt <= i64::MAX
    &&& CAMERA_RATE * dt <= i64::MAX
    &&& forall|a: int, b: int|
        0 <= a < s3.len() && 0 <= b < s3.len() ==> follow_fits(
            #[trigger] s3[a],
            #[trigger] s3[b],
            dt,
        )
}

/// One frame of the presentation clock: the controller, the lifecycle
/// timers and scans, the camera passes, and the flush of every structural
/// change the frame queued. The projectile and enemy spawns of the frame are
/// random in their jitter and draw, so they are described by what holds of
/// every outcome.
pub fn frame_update(w: &mut World, input: PlayerInput, dt: i64)
    requires
        dt >= 0,
        frame_fits(*old(w), input, dt as int),
    ensures
        final(w).spawner.timer == old(w).spawner.timer.ticked(dt as int),
        final(w).despawns@ =~= Seq::<usize>::empty(),
        final(w).spawns@ =~= Seq::<SpawnRequest>::empty(),
        exists|extra: Seq<SpawnRequest>|
            {
                let fired = old(w).spawner.timer.ticked(dt as int).just_finished;
                let shots = fire_count(old(w).ents@, input, dt as int);
                &&& #[trigger] extra.len() == shots + if fired {
                    1int
                } else {
                    0int
                }
                &&& forall|k: int|
                    0 <= k < shots ==> spawned_by_some_firer(
                        old(w).ents@,
                        #[trigger] extra[k],
                        input,
                        dt as int,
                    )
                &&& fired ==> is_enemy_spawn(extra.last())
                &&& final(w).ents@ == apply_despawns(
                    frame_ents(old(w).ents@, input, dt as int),
                    old(w).despawns@ + frame_despawns(old(w).ents@, input, dt as int),
                ) + spawned_slots(old(w).spawns@ + extra)
            },
{
    let ghost s = w.ents@;
    let ghost spawns0 = w.spawns@;
    apply_player_control(w, input, dt);
    let ghost s1 = w.ents@;
    let ghost shots = fire_count(s, input, dt as int);
    proof {
        assert(s1 =~= after_player(s, input, dt as int));
        assert forall|j: int| 0 <= j < s1.len() implies sd_fits(#[trigger] s1[j], dt as int) by {
            assert(s1[j] == after_player(s, input, dt as int)[j]);
        }
    }
    process_self_destruct(w, dt);
    let ghost s2 = w.ents@;
    handle_collision(w);
    destroy_system(w);
    enemy_spawner(w, dt);
    update_camera_target(w);
    let ghost s3 = w.ents@;
    proof {
        let spec_s2 = after_timers(s, input, dt as int);
        let spec_s3 = spec_s2.map_values(|e: EntitySlot| retarget_ent(e, spec_s2));
        assert(s2 =~= spec_s2);
        assert(s3 =~= spec_s3);
        assert forall|a: int, b: int|
            0 <= a < s3.len() && 0 <= b < s3.len() implies follow_fits(
            #[trigger] s3[a],
            #[trigger] s3[b],
            dt as int,
        ) by {
            assert(s3[a] == spec_s3[a]);
            assert(s3[b] == spec_s3[b]);
        }
    }
    update_camera_position(w, dt);
    let ghost s4 = w.ents@;
    let ghost pre_flush_spawns = w.spawns@;
    let ghost pre_flush_despawns = w.despawns@;
    proof {
        assert(s1 =~= after_player(s, input, dt as int));
        assert(s2 =~= after_timers(s, input, dt as int));
        assert(s4 =~= frame_ents(s, input, dt as int));
        assert(pre_flush_despawns =~= old(w).despawns@ + frame_despawns(s, input, dt as int));
        crate::player::lemma_fire_count_bounds(s, input, dt as int);
    }
    w.flush();
    proof {
        let extra = pre_flush_spawns.subrange(spawns0.len() as int, pre_flush_spawns.len() as int);
        assert(spawns0 + extra =~= pre_flush_spawns);
        let fired = old(w).spawner.timer.ticked(dt as int).just_finished;
        if fired {
            assert(extra.last() == pre_flush_spawns.last());
        }
        assert forall|k: int| 0 <= k < shots implies spawned_by_some_firer(
            s,
            #[trigger] extra[k],
            input,
            dt as int,
        ) by {
            assert(extra[k] == pre_flush_spawns[spawns0.len() + k]);
        }
        assert(extra.len() == shots + if fired {
            1int
        } else {
            0int
        });
        assert(final(w).ents@ == apply_despawns(
            frame_ents(s, input, dt as int),
            old(w).despawns@ + frame_despawns(s, input, dt as int),
        ) + spawned_slots(spawns0 + extra));
    }
}

/// Builds the world the game starts with: the repeating enemy spawner, the
/// first enemy (spawned once unconditionally, independent of the timer), the
/// player, and the camera.
pub fn startup() -> (w: World)
    ensures
        w.ents@.len() == 3,
        w.ents@[0] == crate::player::player_start_slot(),
        w.ents@[1] == crate::camera::camera_slot(),
        exists|req: SpawnRequest|
            #[trigger] is_enemy_spawn(req) && w.ents@[2] == slot_of_request(req),
        w.spawner.timer == (Timer {
            duration_ms: ENEMY_SPAWN_PERIOD_MS,
            elapsed_ms: 0,
            mode: TimerMode::Repeating,
            just_finished: false,
        }),
        w.despawns@ =~= Seq::<usize>::empty(),
        w.spawns@ =~= Seq::<SpawnRequest>::empty(),
{
    let spawner = EnemySpawner {
        timer: Timer::from_millis(ENEMY_SPAWN_PERIOD_MS, TimerMode::Repeating),
    };
    let mut w = World::new(spawner);
    initialize_enemy(&mut w);
    crate::player::setup(&mut w);
    crate::camera::setup(&mut w);
    w.flush();
    proof {
        assert(w.ents@.len() == 3);
    }
    w
}

} // verus!
