//! The activity gate and the fast-forward scheduler. One burst advances the
//! physics engine step by step until the settling set empties or the hard
//! step cap is reached. Before each step every free-falling body outside
//! the settling set is disabled, so only bodies that are plausibly still
//! interacting are simulated; after the burst every body is re-enabled,
//! whatever the exit reason. The physics engine itself is an external
//! collaborator: the host loop performs the steps and hands back which
//! bodies are still awake, while every decision is made here.

use vstd::prelude::*;
use crate::body::Body;
use crate::consts::MAX_BURST_STEPS;
use crate::game::{game_wf, Game};

verus! {

/// The settling set is non-empty: some alive body is still settling.
pub open spec fn has_settling(bodies: Seq<Body>) -> bool {
    exists|i: int| 0 <= i < bodies.len() && (#[trigger] bodies[i]).alive && bodies[i].settling
}

/// `i` is one of the identities the physics engine reported awake.
pub open spec fn awake_contains(awake: Seq<usize>, i: int) -> bool {
    exists|k: int| 0 <= k < awake.len() && awake[k] == i
}

/// Opens a new burst: the step counter restarts at zero.
pub fn begin_burst(game: &mut Game)
    ensures
        final(game).burst_steps == 0,
        final(game).bodies == old(game).bodies,
        final(game).score == old(game).score,
        final(game).lost == old(game).lost,
        game_wf(*old(game)) ==> game_wf(*final(game)),
{
    game.burst_steps = 0;
}

/// Whether the burst continues: only while the settling set is non-empty
/// and strictly fewer than `MAX_BURST_STEPS` steps have run. This is the
/// cap that bounds the work of one burst: once it reports `false` the burst
/// is over, however much chain reaction is still pending.
pub fn burst_should_step(game: &Game) -> (r: bool)
    ensures
        r == (game.burst_steps < MAX_BURST_STEPS && has_settling(game.bodies@)),
{
    if game.burst_steps >= MAX_BURST_STEPS {
        return false;
    }
    let mut i: usize = 0;
    let n = game.bodies.len();
    while i < n
        invariant
            n == game.bodies@.len(),
            i <= n,
            game.burst_steps < MAX_BURST_STEPS,
            forall|j: int|
                0 <= j < i ==> !((#[trigger] game.bodies@[j]).alive && game.bodies@[j].settling),
        decreases n - i,
    {
        let b = game.bodies[i];
        if b.alive && b.settling {
            proof {
                assert((#[trigger] game.bodies@[i as int]).alive && game.bodies@[
                    i as int].settling);
            }
            return true;
        }
        i = i + 1;
    }
    false
}

/// The activity gate, closing: every free-falling body that is still
/// enabled but not in the settling set is excluded from simulation; bodies
/// in the settling set and kinematic bodies are left alone.
pub fn disable_sleepers(game: &mut Game)
    ensures
        final(game).bodies@.len() == old(game).bodies@.len(),
        forall|i: int|
            0 <= i < old(game).bodies@.len() ==> final(game).bodies@[i] == if old(
                game,
            ).bodies@[i].dynamic && !old(game).bodies@[i].settling {
                Body { enabled: false, ..old(game).bodies@[i] }
            } else {
                old(game).bodies@[i]
            },
        final(game).score == old(game).score,
        final(game).lost == old(game).lost,
        final(game).burst_steps == old(game).burst_steps,
        game_wf(*old(game)) ==> game_wf(*final(game)),
{
    let mut i: usize = 0;
    let n = game.bodies.len();
    while i < n
        invariant
            n == game.bodies@.len(),
            i <= n,
            game.score == old(game).score,
            game.lost == old(game).lost,
            game.burst_steps == old(game).burst_steps,
            forall|j: int|
                0 <= j < n ==> game.bodies@[j] == if j < i && old(game).bodies@[j].dynamic && !old(
                    game,
                ).bodies@[j].settling {
                    Body { enabled: false, ..old(game).bodies@[j] }
                } else {
                    old(game).bodies@[j]
                },
        decreases n - i,
    {
        let b = game.bodies[i];
        if b.dynamic && !b.settling {
            let mut nb = b;
            nb.enabled = false;
            game.bodies.set(i, nb);
        }
        i = i + 1;
    }
}

/// Records that the host loop ran one physics step. The counter sticks at
/// the cap, so no burst is ever accounted more than `MAX_BURST_STEPS`
/// steps.
pub fn note_step(game: &mut Game)
    requires
        game_wf(*old(game)),
    ensures
        final(game).burst_steps == if old(game).burst_steps < MAX_BURST_STEPS {
            old(game).burst_steps + 1
        } else {
            old(game).burst_steps as int
        },
        final(game).burst_steps <= MAX_BURST_STEPS,
        final(game).bodies == old(game).bodies,
        final(game).score == old(game).score,
        final(game).lost == old(game).lost,
        game_wf(*final(game)),
{
    if game.burst_steps < MAX_BURST_STEPS {
        game.burst_steps = game.burst_steps + 1;
    }
}

/// Rebuilds the settling set from what the physics engine reported after a
/// step: exactly the alive, free-falling, enabled bodies among the awake
/// identities are settling afterwards. Merged successors join the set
/// separately when the step's collisions are applied.
pub fn refresh_settling(game: &mut Game, awake: &Vec<usize>)
    ensures
        final(game).bodies@.len() == old(game).bodies@.len(),
        forall|i: int|
            0 <= i < old(game).bodies@.len() ==> final(game).bodies@[i] == (Body {
                settling: awake_contains(awake@, i) && old(game).bodies@[i].alive && old(
                    game,
                ).bodies@[i].dynamic && old(game).bodies@[i].enabled,
                ..old(game).bodies@[i]
            }),
        final(game).score == old(game).score,
        final(game).lost == old(game).lost,
        final(game).burst_steps == old(game).burst_steps,
        game_wf(*old(game)) ==> game_wf(*final(game)),
{
    let mut i: usize = 0;
    let n = game.bodies.len();
    while i < n
        invariant
            n == game.bodies@.len(),
            i <= n,
            game.score == old(game).score,
            game.lost == old(game).lost,
            game.burst_steps == old(game).burst_steps,
            forall|j: int|
                0 <= j < n ==> game.bodies@[j] == if j < i {
                    Body { settling: false, ..old(game).bodies@[j] }
                } else {
                    old(game).bodies@[j]
                },
        decreases n - i,
    {
        let mut b = game.bodies[i];
        b.settling = false;
        game.bodies.set(i, b);
        i = i + 1;
    }
    let ghost cleared = game.bodies@;
    let mut k: usize = 0;
    while k < awake.len()
        invariant
            n == game.bodies@.len(),
            n == old(game).bodies@.len(),
            cleared.len() == n,
            k <= awake@.len(),
            game.score == old(game).score,
            game.lost == old(game).lost,
            game.burst_steps == old(game).burst_steps,
            forall|j: int|
                0 <= j < n ==> cleared[j] == (Body {
                    settling: false,
                    ..old(game).bodies@[j]
                }),
            forall|j: int|
                0 <= j < n ==> game.bodies@[j] == (Body {
                    settling: awake_contains(awake@.take(k as int), j) && old(
                        game,
                    ).bodies@[j].alive && old(game).bodies@[j].dynamic && old(
                        game,
                    ).bodies@[j].enabled,
                    ..old(game).bodies@[j]
                }),
        decreases awake@.len() - k,
    {
        let id = awake[k];
        if id < n {
            let b = game.bodies[id];
            if b.alive && b.dynamic && b.enabled {
                let mut nb = b;
                nb.settling = true;
                game.bodies.set(id, nb);
            }
        }
        proof {
            assert forall|j: int| 0 <= j < n implies (awake_contains(awake@.take(k as int + 1), j)
                <==> (awake_contains(awake@.take(k as int), j) || j == awake@[k as int])) by {
                if awake_contains(awake@.take(k as int + 1), j) {
                    let kk = choose|kk: int|
                        0 <= kk < k + 1 && #[trigger] awake@.take(k as int + 1)[kk] == j;
                    if kk < k {
                        assert(awake@.take(k as int)[kk] == j);
                    }
                }
                if awake_contains(awake@.take(k as int), j) {
                    let kk = choose|kk: int|
                        0 <= kk < k && #[trigger] awake@.take(k as int)[kk] == j;
                    assert(awake@.take(k as int + 1)[kk] == j);
                }
                if j == awake@[k as int] {
                    assert(awake@.take(k as int + 1)[k as int] == j);
                }
            }
        }
        k = k + 1;
    }
    proof {
        assert(awake@.take(awake@.len() as int) =~= awake@);
    }
}

/// The burst is over: every body is re-enabled, whatever the exit reason,
/// so that normal per-frame physics resumes for everything. Returns the
/// diagnostic count of steps the burst executed.
pub fn end_burst(game: &mut Game) -> (steps: u32)
    ensures
        steps == old(game).burst_steps,
        final(game).bodies@.len() == old(game).bodies@.len(),
        forall|i: int|
            0 <= i < old(game).bodies@.len() ==> final(game).bodies@[i] == (Body {
                enabled: true,
                ..old(game).bodies@[i]
            }),
        final(game).score == old(game).score,
        final(game).lost == old(game).lost,
        final(game).burst_steps == old(game).burst_steps,
        game_wf(*old(game)) ==> game_wf(*final(game)),
{
    let mut i: usize = 0;
    let n = game.bodies.len();
    while i < n
        invariant
            n == game.bodies@.len(),
            i <= n,
            game.score == old(game).score,
            game.lost == old(game).lost,
            game.burst_steps == old(game).burst_steps,
            forall|j: int|
                0 <= j < n ==> game.bodies@[j] == if j < i {
                    Body { enabled: true, ..old(game).bodies@[j] }
                } else {
                    old(game).bodies@[j]
                },
        decreases n - i,
    {
        let mut b = game.bodies[i];
        b.enabled = true;
        game.bodies.set(i, b);
        i = i + 1;
    }
    game.burst_steps
}

/// The step cap of one burst: a well-formed game never accounts more than
/// `MAX_BURST_STEPS` steps, and once the counter reaches the cap the
/// scheduler refuses further steps, however large the settling set is.
pub proof fn lemma_burst_cap(g: Game)
    requires
        game_wf(g),
    ensures
        g.burst_steps <= MAX_BURST_STEPS,
        g.burst_steps >= MAX_BURST_STEPS ==> !(g.burst_steps < MAX_BURST_STEPS && has_settling(
            g.bodies@,
        )),
{
}

} // verus!
