//! Health-driven destruction.

use vstd::prelude::*;

use crate::world::EntitySlot;
use crate::world::World;

verus! {

/// Integer health; the entity dies when it drops to zero or below. Health is
/// only ever decremented by damage application, never by collision despawns.
#[derive(Clone, Copy, PartialEq, Eq, Structural, Debug)]
pub struct Destructable {
    pub health: i32,
}

/// Entities whose health has run out.
pub open spec fn dead_matched(e: EntitySlot) -> bool {
    e.alive && e.destructable is Some && e.destructable->0.health <= 0
}

/// The despawn requests of the health pass: every live destructible entity
/// with health at or below zero, in entity order.
pub open spec fn destroy_requests(s: Seq<EntitySlot>) -> Seq<usize>
    decreases s.len(),
{
    if s.len() == 0 {
        Seq::empty()
    } else {
        destroy_requests(s.drop_last()) + if dead_matched(s.last()) {
            seq![(s.len() - 1) as usize]
        } else {
            Seq::empty()
        }
    }
}

/// Requests the despawn of every entity whose health is at or below zero.
/// Health is decremented elsewhere, by whatever collaborator inflicts damage;
/// this pass only reads it.
pub fn destroy_system(w: &mut World)
    ensures
        final(w).ents@ == old(w).ents@,
        final(w).despawns@ == old(w).despawns@ + destroy_requests(old(w).ents@),
        final(w).spawner == old(w).spawner,
        final(w).spawns@ == old(w).spawns@,
{
    let n = w.ents.len();
    let mut i: usize = 0;
    while i < n
        invariant
            i <= n,
            n == w.ents@.len(),
            w.ents@ == old(w).ents@,
            w.despawns@ == old(w).despawns@ + destroy_requests(old(w).ents@.take(i as int)),
            w.spawner == old(w).spawner,
            w.spawns@ == old(w).spawns@,
        decreases n - i,
    {
        let ghost pre = old(w).ents@.take(i as int);
        let e = w.ents[i];
        if e.alive && e.destructable.is_some() && e.destructable.unwrap().health <= 0 {
            w.despawns.push(i);
        }
        proof {
            assert(old(w).ents@.take(i as int + 1).drop_last() =~= pre);
            assert(old(w).ents@.take(i as int + 1).last() == old(w).ents@[i as int]);
            if dead_matched(old(w).ents@[i as int]) {
                assert(w.despawns@ =~= old(w).despawns@ + destroy_requests(
                    old(w).ents@.take(i as int + 1),
                ));
            } else {
                assert(destroy_requests(old(w).ents@.take(i as int + 1)) =~= destroy_requests(
                    pre,
                ));
            }
        }
        i += 1;
    }
    proof {
        assert(old(w).ents@.take(n as int) =~= old(w).ents@);
    }
}

} // verus!
