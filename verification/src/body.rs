//! The body arena record: one simulated disc. Bodies live in an arena and
//! are addressed by index; a despawned body stays in the arena with its
//! `alive` flag cleared, so indices are stable for a whole control tick.

use vstd::prelude::*;
use crate::consts::{ANGLE_FULL, MAX_RANK};
use crate::geom::{pos_bounded, Pos};

verus! {

/// One simulated disc.
///
/// Once a disc is committed to the simulation its `rank` never changes: a
/// merge despawns the two inputs and creates a fresh body of the next rank.
/// The one exception is the queued preview disc beside the cursor, which is
/// never simulated and whose rank is re-rolled each time it is handed over.
/// `dynamic` distinguishes free-falling bodies from the kinematic,
/// cursor-held one. `enabled` is the physics-participation flag the
/// activity gate toggles, and `settling` marks membership in the current
/// burst's settling set.
#[derive(Clone, Copy, PartialEq, Eq, Structural, Debug)]
pub struct Body {
    pub rank: u32,
    pub pos: Pos,
    pub angle: u64,
    pub alive: bool,
    pub dynamic: bool,
    pub enabled: bool,
    pub settling: bool,
}

/// Field ranges every arena entry keeps: the rank fits the cup, the
/// coordinates are representable and the angle is reduced.
pub open spec fn body_wf(b: Body) -> bool {
    &&& b.rank <= MAX_RANK
    &&& pos_bounded(b.pos)
    &&& b.angle < ANGLE_FULL
}

/// Every entry of the arena is well-formed.
pub open spec fn arena_wf(bodies: Seq<Body>) -> bool {
    forall|i: int| 0 <= i < bodies.len() ==> body_wf(#[trigger] bodies[i])
}

/// Number of arena entries that are alive.
pub open spec fn count_alive(bodies: Seq<Body>) -> int
    decreases bodies.len(),
{
    if bodies.len() == 0 {
        0
    } else {
        count_alive(bodies.drop_last()) + if bodies.last().alive {
            1int
        } else {
            0int
        }
    }
}

/// Clearing the `alive` flag of one live entry lowers the live count by one.
pub proof fn lemma_count_alive_despawn(b1: Seq<Body>, b2: Seq<Body>, j: int)
    requires
        b1.len() == b2.len(),
        0 <= j < b1.len(),
        b1[j].alive,
        !b2[j].alive,
        forall|i: int| 0 <= i < b1.len() && i != j ==> b1[i] == b2[i],
    ensures
        count_alive(b2) == count_alive(b1) - 1,
    decreases b1.len(),
{
    if j == b1.len() - 1 {
        assert(b1.drop_last() =~= b2.drop_last());
    } else {
        lemma_count_alive_despawn(b1.drop_last(), b2.drop_last(), j);
    }
}

/// Appending one entry raises the live count by one exactly when the entry
/// is alive.
pub proof fn lemma_count_alive_push(bodies: Seq<Body>, b: Body)
    ensures
        count_alive(bodies.push(b)) == count_alive(bodies) + if b.alive {
            1int
        } else {
            0int
        },
{
    assert(bodies.push(b).drop_last() =~= bodies);
}

/// Two arenas whose entries agree on the `alive` flag have the same live
/// count.
pub proof fn lemma_count_alive_same(b1: Seq<Body>, b2: Seq<Body>)
    requires
        b1.len() == b2.len(),
        forall|i: int| 0 <= i < b1.len() ==> b1[i].alive == b2[i].alive,
    ensures
        count_alive(b1) == count_alive(b2),
    decreases b1.len(),
{
    if b1.len() > 0 {
        lemma_count_alive_same(b1.drop_last(), b2.drop_last());
    }
}

} // verus!
