//! The camera tracker: retargeting between tracked entities, exponential
//! smoothing toward the active target, and rescaling on viewport resizes.
//!
//! `CameraTarget` (current) and `NextCameraTarget` (requested) are singleton
//! roles. Every query here follows get-single semantics: if a role is not
//! held by exactly one entity, the pass is a no-op for the frame.

use vstd::prelude::*;

use crate::math::mul_div;
use crate::math::scaled;
use crate::math::Transform;
use crate::math::Vec3;
use crate::movement::fits_i64;
use crate::world::EntitySlot;
use crate::world::World;

verus! {

/// Smoothing rate of the camera follow, per second: each frame the camera
/// covers the fraction `RATE * dt / 1000` of its distance to the target.
pub const CAMERA_RATE: i64 = 2;

/// The fixed logical width the render scale preserves across resizes.
pub const LOGICAL_WIDTH: i64 = 1920;

/// The entity filters the camera passes query with.
#[derive(Clone, Copy, PartialEq, Eq, Structural, Debug)]
pub enum Query {
    /// Holds the camera-target role.
    Target,
    /// Requests the camera-target role.
    Next,
    /// The camera itself, when not its own target, with a transform.
    CameraWithoutTarget,
    /// The followed entity: holds the target role and has a transform.
    TrackedTarget,
    /// The camera itself, with a transform.
    Camera,
    /// A retarget candidate: positioned and not already the target.
    PickCandidate,
}

/// Whether an entity matches a query filter.
pub open spec fn q_matched(q: Query, e: EntitySlot) -> bool {
    match q {
        Query::Target => e.alive && e.camera_target,
        Query::Next => e.alive && e.next_camera_target,
        Query::CameraWithoutTarget => e.alive && e.camera2d && !e.camera_target
            && e.transform is Some,
        Query::TrackedTarget => e.alive && e.camera_target && e.transform is Some,
        Query::Camera => e.alive && e.camera2d && e.transform is Some,
        Query::PickCandidate => e.alive && e.position is Some && !e.camera_target,
    }
}

/// How many entities match the filter.
pub open spec fn count_q(q: Query, s: Seq<EntitySlot>) -> int
    decreases s.len(),
{
    if s.len() == 0 {
        0
    } else {
        count_q(q, s.drop_last()) + if q_matched(q, s.last()) {
            1int
        } else {
            0int
        }
    }
}

/// The count never exceeds the entity count.
pub proof fn lemma_count_q_bounds(q: Query, s: Seq<EntitySlot>)
    ensures
        0 <= count_q(q, s) <= s.len(),
    decreases s.len(),
{
    if s.len() > 0 {
        lemma_count_q_bounds(q, s.drop_last());
    }
}

/// A match makes the count positive.
pub proof fn lemma_count_q_one(q: Query, s: Seq<EntitySlot>, a: int)
    requires
        0 <= a < s.len(),
        q_matched(q, s[a]),
    ensures
        count_q(q, s) >= 1,
    decreases s.len(),
{
    if a == s.len() - 1 {
        lemma_count_q_bounds(q, s.drop_last());
    } else {
        lemma_count_q_one(q, s.drop_last(), a);
    }
}

/// Two distinct matches make the count at least two.
pub proof fn lemma_count_q_two(q: Query, s: Seq<EntitySlot>, a: int, b: int)
    requires
        0 <= a < b < s.len(),
        q_matched(q, s[a]),
        q_matched(q, s[b]),
    ensures
        count_q(q, s) >= 2,
    decreases s.len(),
{
    if b == s.len() - 1 {
        lemma_count_q_one(q, s.drop_last(), a);
    } else {
        lemma_count_q_two(q, s.drop_last(), a, b);
    }
}

/// With a count of one, a match is the only match.
pub proof fn lemma_count_q_unique(q: Query, s: Seq<EntitySlot>, a: int)
    requires
        count_q(q, s) == 1,
        0 <= a < s.len(),
        q_matched(q, s[a]),
    ensures
        forall|b: int| 0 <= b < s.len() && b != a ==> !q_matched(q, #[trigger] s[b]),
{
    assert forall|b: int| 0 <= b < s.len() && b != a implies !q_matched(q, #[trigger] s[b]) by {
        if q_matched(q, s[b]) {
            if a < b {
                lemma_count_q_two(q, s, a, b);
            } else {
                lemma_count_q_two(q, s, b, a);
            }
        }
    }
}

/// Counts the filter's matches and reports the index of one of them.
fn find_single(w: &World, q: Query) -> (r: (usize, usize))
    ensures
        r.0 == count_q(q, w.ents@),
        count_q(q, w.ents@) >= 1 ==> r.1 < w.ents@.len() && q_matched(q, w.ents@[r.1 as int]),
{
    let n = w.ents.len();
    let mut count: usize = 0;
    let mut found: usize = 0;
    let mut i: usize = 0;
    while i < n
        invariant
            i <= n,
            n == w.ents@.len(),
            count == count_q(q, w.ents@.take(i as int)),
            count_q(q, w.ents@.take(i as int)) >= 1 ==> found < i && q_matched(
                q,
                w.ents@[found as int],
            ),
        decreases n - i,
    {
        let ghost pre = w.ents@.take(i as int);
        let e = &w.ents[i];
        let m = match q {
            Query::Target => e.alive && e.camera_target,
            Query::Next => e.alive && e.next_camera_target,
            Query::CameraWithoutTarget => e.alive && e.camera2d && !e.camera_target
                && e.transform.is_some(),
            Query::TrackedTarget => e.alive && e.camera_target && e.transform.is_some(),
            Query::Camera => e.alive && e.camera2d && e.transform.is_some(),
            Query::PickCandidate => e.alive && e.position.is_some() && !e.camera_target,
        };
        proof {
            assert(w.ents@.take(i as int + 1).drop_last() =~= pre);
            assert(w.ents@.take(i as int + 1).last() == w.ents@[i as int]);
            lemma_count_q_bounds(q, pre);
        }
        if m {
            count = count + 1;
            found = i;
        }
        i += 1;
    }
    proof {
        assert(w.ents@.take(n as int) =~= w.ents@);
    }
    (count, found)
}

/// Whether a retarget transition happens this frame: both the current and
/// the requested role are held by exactly one entity each.
pub open spec fn retarget_transition(s: Seq<EntitySlot>) -> bool {
    count_q(Query::Target, s) == 1 && count_q(Query::Next, s) == 1
}

/// One entity after the retarget pass: when the transition happens, the
/// requester trades its request for the target role and the old holder loses
/// it; otherwise nothing changes.
pub open spec fn retarget_ent(e: EntitySlot, s: Seq<EntitySlot>) -> EntitySlot {
    if retarget_transition(s) {
        if q_matched(Query::Next, e) {
            EntitySlot { camera_target: true, next_camera_target: false, ..e }
        } else if q_matched(Query::Target, e) {
            EntitySlot { camera_target: false, ..e }
        } else {
            e
        }
    } else {
        e
    }
}

/// Moves the camera-target role: if exactly one entity holds CameraTarget
/// and exactly one holds NextCameraTarget, the role moves atomically from
/// the old holder to the requester and the request is consumed. If either
/// side is absent (or ambiguous), no transition occurs this frame.
pub fn update_camera_target(w: &mut World)
    ensures
        final(w).ents@ == old(w).ents@.map_values(
            |e: EntitySlot| retarget_ent(e, old(w).ents@),
        ),
        final(w).spawner == old(w).spawner,
        final(w).despawns@ == old(w).despawns@,
        final(w).spawns@ == old(w).spawns@,
{
    let (t_count, t_idx) = find_single(w, Query::Target);
    let (n_count, n_idx) = find_single(w, Query::Next);
    if t_count == 1 && n_count == 1 {
        proof {
            lemma_count_q_unique(Query::Target, w.ents@, t_idx as int);
            lemma_count_q_unique(Query::Next, w.ents@, n_idx as int);
        }
        w.ents[t_idx].camera_target = false;
        w.ents[n_idx].next_camera_target = false;
        w.ents[n_idx].camera_target = true;
        proof {
            assert(w.ents@ =~= old(w).ents@.map_values(
                |e: EntitySlot| retarget_ent(e, old(w).ents@),
            ));
        }
    } else {
        proof {
            assert(w.ents@ =~= old(w).ents@.map_values(
                |e: EntitySlot| retarget_ent(e, old(w).ents@),
            ));
        }
    }
}

/// The retarget transition is atomic and exact: with CameraTarget on `x`
/// and NextCameraTarget on `y` (each a singleton), one retarget pass leaves
/// `x` without the target role, gives it to `y` exactly, and leaves no
/// pending request anywhere.
pub proof fn lemma_camera_retarget(s: Seq<EntitySlot>, x: int, y: int)
    requires
        0 <= x < s.len(),
        0 <= y < s.len(),
        x != y,
        q_matched(Query::Target, s[x]),
        q_matched(Query::Next, s[y]),
        count_q(Query::Target, s) == 1,
        count_q(Query::Next, s) == 1,
    ensures
        ({
            let s1 = s.map_values(|e: EntitySlot| retarget_ent(e, s));
            &&& !s1[x].camera_target
            &&& s1[y].camera_target
            &&& forall|j: int| 0 <= j < s1.len() ==> !q_matched(Query::Next, #[trigger] s1[j])
            &&& forall|j: int|
                0 <= j < s1.len() && j != y ==> !q_matched(Query::Target, #[trigger] s1[j])
        }),
{
    let s1 = s.map_values(|e: EntitySlot| retarget_ent(e, s));
    lemma_count_q_unique(Query::Target, s, x);
    lemma_count_q_unique(Query::Next, s, y);
    assert forall|j: int| 0 <= j < s1.len() implies !q_matched(Query::Next, #[trigger] s1[j]) by {
        assert(s1[j] == retarget_ent(s[j], s));
    }
    assert forall|j: int| 0 <= j < s1.len() && j != y implies !q_matched(
        Query::Target,
        #[trigger] s1[j],
    ) by {
        assert(s1[j] == retarget_ent(s[j], s));
    }
}

/// The entity the camera follows: the unique holder of the target role that
/// has a transform.
pub open spec fn the_tracked(s: Seq<EntitySlot>) -> EntitySlot {
    s[choose|j: int| 0 <= j < s.len() && q_matched(Query::TrackedTarget, #[trigger] s[j])]
}

/// Whether the smoothing pass runs: one camera (not its own target) and one
/// tracked target.
pub open spec fn follow_active(s: Seq<EntitySlot>) -> bool {
    count_q(Query::CameraWithoutTarget, s) == 1 && count_q(Query::TrackedTarget, s) == 1
}

/// One entity after the smoothing pass: the camera's planar translation is
/// interpolated toward the target's by the fraction `CAMERA_RATE * dt /
/// 1000`; its depth is never modified. Every other entity is untouched.
pub open spec fn follow_ent(e: EntitySlot, s: Seq<EntitySlot>, dt: int) -> EntitySlot {
    if follow_active(s) && q_matched(Query::CameraWithoutTarget, e) {
        let c = e.transform->0;
        let t = the_tracked(s).transform->0;
        EntitySlot {
            transform: Some(
                Transform {
                    translation: Vec3 {
                        x: (c.translation.x + scaled(
                            t.translation.x - c.translation.x,
                            CAMERA_RATE * dt,
                            1000,
                        )) as i64,
                        y: (c.translation.y + scaled(
                            t.translation.y - c.translation.y,
                            CAMERA_RATE * dt,
                            1000,
                        )) as i64,
                        z: c.translation.z,
                    },
                    ..c
                },
            ),
            ..e
        }
    } else {
        e
    }
}

/// The smoothing step on a camera/target pair stays inside `i64`.
pub open spec fn follow_fits(cam: EntitySlot, tgt: EntitySlot, dt: int) -> bool {
    (q_matched(Query::CameraWithoutTarget, cam) && q_matched(Query::TrackedTarget, tgt)) ==> {
        let c = cam.transform->0.translation;
        let t = tgt.transform->0.translation;
        &&& fits_i64(t.x - c.x)
        &&& fits_i64(t.y - c.y)
        &&& fits_i64(scaled(t.x - c.x, CAMERA_RATE * dt, 1000))
        &&& fits_i64(scaled(t.y - c.y, CAMERA_RATE * dt, 1000))
        &&& fits_i64(c.x + scaled(t.x - c.x, CAMERA_RATE * dt, 1000))
        &&& fits_i64(c.y + scaled(t.y - c.y, CAMERA_RATE * dt, 1000))
    }
}

/// Smooths the camera toward its target: if exactly one camera (that is not
/// itself the target) and exactly one tracked target exist, the camera's
/// planar position moves a `CAMERA_RATE * dt / 1000` fraction of the way to
/// the target's; otherwise the frame is a no-op.
pub fn update_camera_position(w: &mut World, dt: i64)
    requires
        0 <= dt,
        CAMERA_RATE * dt <= i64::MAX,
        forall|a: int, b: int|
            0 <= a < old(w).ents@.len() && 0 <= b < old(w).ents@.len() ==> follow_fits(
                #[trigger] old(w).ents@[a],
                #[trigger] old(w).ents@[b],
                dt as int,
            ),
    ensures
        final(w).ents@ == old(w).ents@.map_values(
            |e: EntitySlot| follow_ent(e, old(w).ents@, dt as int),
        ),
        final(w).spawner == old(w).spawner,
        final(w).despawns@ == old(w).despawns@,
        final(w).spawns@ == old(w).spawns@,
{
    let (c_count, c_idx) = find_single(w, Query::CameraWithoutTarget);
    let (t_count, t_idx) = find_single(w, Query::TrackedTarget);
    if c_count == 1 && t_count == 1 {
        proof {
            lemma_count_q_unique(Query::CameraWithoutTarget, w.ents@, c_idx as int);
            lemma_count_q_unique(Query::TrackedTarget, w.ents@, t_idx as int);
            assert(q_matched(Query::TrackedTarget, w.ents@[t_idx as int]));
            assert(the_tracked(w.ents@) == w.ents@[t_idx as int]);
        }
        let cam = w.ents[c_idx];
        let tgt = w.ents[t_idx];
        let c = cam.transform.unwrap();
        let t = tgt.transform.unwrap();
        let factor = CAMERA_RATE * dt;
        let nx = c.translation.x + mul_div(t.translation.x - c.translation.x, factor, 1000);
        let ny = c.translation.y + mul_div(t.translation.y - c.translation.y, factor, 1000);
        w.ents[c_idx].transform = Some(
            Transform { translation: Vec3 { x: nx, y: ny, z: c.translation.z }, ..c },
        );
        proof {
            assert(w.ents@ =~= old(w).ents@.map_values(
                |e: EntitySlot| follow_ent(e, old(w).ents@, dt as int),
            ));
        }
    } else {
        proof {
            assert(w.ents@ =~= old(w).ents@.map_values(
                |e: EntitySlot| follow_ent(e, old(w).ents@, dt as int),
            ));
        }
    }
}

/// One entity after a resize to `width`: the camera's planar render scale
/// becomes exactly the fraction `LOGICAL_WIDTH / width`, preserving a
/// constant logical field of view; the depth scale stays at one.
pub open spec fn resize_ent(e: EntitySlot, width: i64) -> EntitySlot {
    if q_matched(Query::Camera, e) {
        EntitySlot {
            transform: Some(
                Transform { scale_num: LOGICAL_WIDTH, scale_den: width, ..e.transform->0 },
            ),
            ..e
        }
    } else {
        e
    }
}

/// Reacts to a viewport resize carrying the new physical width: the unique
/// camera's render scale is recomputed as `LOGICAL_WIDTH / width`, held as
/// an exact fraction. Exactly one camera must exist; that is a structural
/// precondition of the setup, not a runtime error.
pub fn on_window_resized(w: &mut World, width: i64)
    requires
        width >= 1,
        count_q(Query::Camera, old(w).ents@) == 1,
    ensures
        final(w).ents@ == old(w).ents@.map_values(|e: EntitySlot| resize_ent(e, width)),
        final(w).spawner == old(w).spawner,
        final(w).despawns@ == old(w).despawns@,
        final(w).spawns@ == old(w).spawns@,
{
    let (c_count, c_idx) = find_single(w, Query::Camera);
    proof {
        lemma_count_q_unique(Query::Camera, w.ents@, c_idx as int);
    }
    let c = w.ents[c_idx].transform.unwrap();
    w.ents[c_idx].transform = Some(
        Transform { scale_num: LOGICAL_WIDTH, scale_den: width, ..c },
    );
    proof {
        assert(w.ents@ =~= old(w).ents@.map_values(|e: EntitySlot| resize_ent(e, width)));
    }
}

/// The index of the first retarget candidate, or the entity count if none.
pub open spec fn first_pick(s: Seq<EntitySlot>) -> int
    decreases s.len(),
{
    if s.len() == 0 {
        0
    } else if q_matched(Query::PickCandidate, s.first()) {
        0
    } else {
        1 + first_pick(s.drop_first())
    }
}

/// A match preceded only by non-matches is the first pick.
pub proof fn lemma_first_pick(s: Seq<EntitySlot>, i: int)
    requires
        0 <= i < s.len(),
        q_matched(Query::PickCandidate, s[i]),
        forall|j: int| 0 <= j < i ==> !q_matched(Query::PickCandidate, #[trigger] s[j]),
    ensures
        first_pick(s) == i,
    decreases s.len(),
{
    if i > 0 {
        assert(!q_matched(Query::PickCandidate, s.first()));
        assert(s.drop_first()[i - 1] == s[i]);
        assert forall|j: int| 0 <= j < i - 1 implies !q_matched(
            Query::PickCandidate,
            #[trigger] s.drop_first()[j],
        ) by {
            assert(s.drop_first()[j] == s[j + 1]);
        }
        lemma_first_pick(s.drop_first(), i - 1);
    }
}

/// Marks the first positioned entity that is not already the camera target
/// as the requested next target. At least one such candidate must exist.
pub fn handle_left_mouse_button(w: &mut World)
    requires
        exists|j: int|
            0 <= j < old(w).ents@.len() && q_matched(
                Query::PickCandidate,
                #[trigger] old(w).ents@[j],
            ),
    ensures
        final(w).ents@ == old(w).ents@.update(
            first_pick(old(w).ents@),
            EntitySlot { next_camera_target: true, ..old(w).ents@[first_pick(old(w).ents@)] },
        ),
        final(w).spawner == old(w).spawner,
        final(w).despawns@ == old(w).despawns@,
        final(w).spawns@ == old(w).spawns@,
{
    let n = w.ents.len();
    let mut i: usize = 0;
    while i < n
        invariant
            i <= n,
            n == w.ents@.len(),
            w.ents@ == old(w).ents@,
            w.spawner == old(w).spawner,
            w.despawns@ == old(w).despawns@,
            w.spawns@ == old(w).spawns@,
            exists|j: int|
                0 <= j < old(w).ents@.len() && q_matched(
                    Query::PickCandidate,
                    #[trigger] old(w).ents@[j],
                ),
            forall|j: int|
                0 <= j < i ==> !q_matched(Query::PickCandidate, #[trigger] old(w).ents@[j]),
        decreases n - i,
    {
        let e = &w.ents[i];
        if e.alive && e.position.is_some() && !e.camera_target {
            proof {
                lemma_first_pick(old(w).ents@, i as int);
            }
            w.ents[i].next_camera_target = true;
            return ;
        }
        i += 1;
    }
    proof {
        let j = choose|j: int|
            0 <= j < old(w).ents@.len() && q_matched(
                Query::PickCandidate,
                #[trigger] old(w).ents@[j],
            );
        assert(!q_matched(Query::PickCandidate, old(w).ents@[j]));
        assert(false);
    }
}

/// The entity the camera starts as: a camera at the origin with unit scale.
pub open spec fn camera_slot() -> EntitySlot {
    EntitySlot {
        camera2d: true,
        transform: Some(
            Transform { translation: Vec3 { x: 0, y: 0, z: 0 }, scale_num: 1, scale_den: 1 },
        ),
        ..crate::world::empty_slot()
    }
}

/// Spawns the camera at startup and returns its entity id.
pub fn setup(w: &mut World) -> (id: usize)
    ensures
        final(w).ents@ == old(w).ents@.push(camera_slot()),
        id == old(w).ents@.len(),
        final(w).spawner == old(w).spawner,
        final(w).despawns@ == old(w).despawns@,
        final(w).spawns@ == old(w).spawns@,
{
    let base = crate::world::EntitySlot::empty();
    let slot = EntitySlot {
        camera2d: true,
        transform: Some(
            Transform { translation: Vec3 { x: 0, y: 0, z: 0 }, scale_num: 1, scale_den: 1 },
        ),
        ..base
    };
    w.spawn(slot)
}

} // verus!
