//! The merge resolver. A classification pass yields merge pairs; each pair
//! is resolved into a spawn request (next rank, midpoint position, halfway
//! orientation), and the whole pass is committed in one buffered step:
//! despawn the merged bodies, propagate settling status, then spawn the
//! merged successors, each corrected against the pre-pass world snapshot
//! and scored.

use vstd::prelude::*;
use crate::body::{arena_wf, body_wf, count_alive, lemma_count_alive_despawn, lemma_count_alive_push, lemma_count_alive_same, Body};
use crate::classify::{classify, pair_live, pass_spec, pass_wf, CollisionPair};
use crate::consts::{MAX_CORRECTION_PASSES, MAX_RANK};
use crate::game::{game_wf, sat_add, Game};
use crate::geom::{angle_midpoint, angle_midpoint_spec, clamp_spec, in_bounds, midpoint, midpoint_spec, pos_bounded, Pos};
use crate::overlap::{correct_position, obstacle_wf, relax_spec, spawn_bounds, spawn_bounds_spec, Obstacle};
use crate::rank::{lemma_radius_bounded, next_rank, radius, radius_spec, score, score_spec};

verus! {

/// What the resolver decides for one merge pair, before overlap correction.
#[derive(Clone, Copy, PartialEq, Eq, Structural, Debug)]
pub struct SpawnRequest {
    pub rank: u32,
    pub pos: Pos,
    pub angle: u64,
}

/// Resolves one equal-rank pair: the merged disc has the next rank, sits at
/// the exact midpoint of the two inputs' pre-despawn positions, and carries
/// the orientation halfway along the shorter arc between the two inputs'.
pub fn resolve_pair(a: &Body, b: &Body) -> (req: SpawnRequest)
    requires
        body_wf(*a),
        body_wf(*b),
        a.rank == b.rank,
        a.rank < MAX_RANK,
    ensures
        req.rank == a.rank + 1,
        req.pos == midpoint_spec(a.pos, b.pos),
        req.angle == angle_midpoint_spec(a.angle, b.angle),
        pos_bounded(req.pos),
        req.angle < crate::consts::ANGLE_FULL,
        req.rank <= MAX_RANK,
{
    SpawnRequest {
        rank: next_rank(a.rank),
        pos: midpoint(a.pos, b.pos),
        angle: angle_midpoint(a.angle, b.angle),
    }
}

/// The score accumulator after crediting every pair of the pass in order:
/// each merge adds the score value of the merged disc's new rank, with the
/// accumulator saturating at its ceiling.
pub open spec fn pass_score(bodies: Seq<Body>, pairs: Seq<CollisionPair>, s: u64) -> u64
    decreases pairs.len(),
{
    if pairs.len() == 0 {
        s
    } else {
        pass_score(
            bodies,
            pairs.drop_first(),
            sat_add(s, score_spec((bodies[pairs[0].a as int].rank + 1) as nat) as int),
        )
    }
}

/// Crediting a pass never lowers the accumulator.
pub proof fn lemma_pass_score_ge(bodies: Seq<Body>, pairs: Seq<CollisionPair>, s: u64)
    ensures
        pass_score(bodies, pairs, s) >= s,
    decreases pairs.len(),
{
    if pairs.len() > 0 {
        lemma_pass_score_ge(
            bodies,
            pairs.drop_first(),
            sat_add(s, score_spec((bodies[pairs[0].a as int].rank + 1) as nat) as int),
        );
    }
}

/// The world snapshot the overlap corrector consults, as obstacle records
/// in arena order: every body of the first `n` entries that is alive and
/// not committed to a merge this pass, with the radius of its rank.
pub open spec fn snapshot_obstacles(bodies: Seq<Body>, handled: Set<int>, n: int) -> Seq<Obstacle>
    decreases n,
{
    if n <= 0 {
        Seq::empty()
    } else {
        let pre = snapshot_obstacles(bodies, handled, n - 1);
        if bodies[n - 1].alive && !handled.contains(n - 1) {
            pre.push(
                Obstacle {
                    pos: bodies[n - 1].pos,
                    radius: radius_spec(bodies[n - 1].rank as nat) as u64,
                },
            )
        } else {
            pre
        }
    }
}

/// Where the merged successor of pair `p` lands: the midpoint of the two
/// inputs, clamped into the next rank's bounds and relaxed against the
/// pre-pass snapshot minus the bodies handled this pass — so successors of
/// the same pass are never corrected against each other.
pub open spec fn merged_pos(bodies: Seq<Body>, handled: Set<int>, p: CollisionPair) -> Pos {
    let rank2 = (bodies[p.a as int].rank + 1) as nat;
    let bnds = spawn_bounds_spec(rank2);
    relax_spec(
        clamp_spec(midpoint_spec(bodies[p.a as int].pos, bodies[p.b as int].pos), bnds),
        radius_spec(rank2) as u64,
        snapshot_obstacles(bodies, handled, bodies.len() as int),
        bnds,
        MAX_CORRECTION_PASSES as int,
    ).0
}

/// The merged successor of pair `p`: alive, free-falling, enabled, part of
/// the settling set, one rank above its two inputs, oriented halfway
/// between them, and placed at the corrected midpoint of the two inputs,
/// inside the bounds of its own rank.
pub open spec fn merged_body_ok(bodies: Seq<Body>, handled: Set<int>, p: CollisionPair, nb: Body) -> bool {
    &&& nb.alive
    &&& nb.dynamic
    &&& nb.enabled
    &&& nb.settling
    &&& nb.rank == bodies[p.a as int].rank + 1
    &&& nb.angle == angle_midpoint_spec(bodies[p.a as int].angle, bodies[p.b as int].angle)
    &&& nb.pos == merged_pos(bodies, handled, p)
    &&& in_bounds(nb.pos, spawn_bounds_spec(nb.rank as nat))
}

/// `i` occurs in one of the first `k` pairs.
pub open spec fn in_pairs_upto(pairs: Seq<CollisionPair>, k: int, i: int) -> bool {
    exists|j: int| 0 <= j < k && ((#[trigger] pairs[j]).a == i || pairs[j].b == i)
}

/// One whole merge tick over the collision-start events of one physics
/// step. The events are classified in arrival order; every merge pair's two
/// bodies are despawned, settling status propagates along non-merging
/// contacts, and one merged successor per pair is spawned at the corrected
/// midpoint and scored. Every merge lowers the number of live bodies by
/// exactly one. Returns how many merges happened.
#[verifier::loop_isolation(false)]
#[verifier::rlimit(60)]
pub fn apply_collisions(game: &mut Game, events: &Vec<CollisionPair>) -> (merges: usize)
    requires
        game_wf(*old(game)),
        forall|i: int|
            0 <= i < old(game).bodies@.len() && (#[trigger] old(game).bodies@[i]).alive ==> old(
                game,
            ).bodies@[i].rank < MAX_RANK,
    ensures
        ({
            let st = pass_spec(old(game).bodies@, events@);
            let n0 = old(game).bodies@.len() as int;
            &&& merges == st.pairs.len()
            &&& final(game).bodies@.len() == n0 + st.pairs.len()
            &&& forall|i: int|
                0 <= i < n0 ==> final(game).bodies@[i] == (Body {
                    alive: old(game).bodies@[i].alive && !st.handled.contains(i),
                    settling: old(game).bodies@[i].settling || st.woken.contains(i),
                    ..old(game).bodies@[i]
                })
            &&& forall|k: int|
                0 <= k < st.pairs.len() ==> merged_body_ok(
                    old(game).bodies@,
                    st.handled,
                    st.pairs[k],
                    final(game).bodies@[n0 + k],
                )
            &&& final(game).score == pass_score(old(game).bodies@, st.pairs, old(game).score)
            &&& final(game).score >= old(game).score
            &&& final(game).lost == old(game).lost
            &&& final(game).burst_steps == old(game).burst_steps
            &&& count_alive(final(game).bodies@) == count_alive(old(game).bodies@)
                - st.pairs.len()
            &&& game_wf(*final(game))
        }),
{
    let ghost bodies0 = game.bodies@;
    let ghost score0 = game.score;
    let cls = classify(&game.bodies, events);
    let ghost st = pass_spec(bodies0, events@);

    // World snapshot the overlap corrector works against: every body that
    // is alive and not being despawned by this pass.
    let mut obstacles: Vec<Obstacle> = Vec::new();
    let mut i: usize = 0;
    while i < game.bodies.len()
        invariant
            game_wf(*game),
            game.bodies@ == bodies0,
            i <= bodies0.len(),
            forall|j: int| 0 <= j < obstacles@.len() ==> obstacle_wf(#[trigger] obstacles@[j]),
            obstacles@ == snapshot_obstacles(bodies0, st.handled, i as int),
        decreases bodies0.len() - i,
    {
        let b = game.bodies[i];
        if b.alive && !cls.handled[i] {
            proof {
                lemma_radius_bounded(b.rank as nat);
            }
            obstacles.push(Obstacle { pos: b.pos, radius: radius(b.rank) });
        }
        i = i + 1;
    }

    // Buffered commit, step one: despawn both bodies of every pair.
    let mut k: usize = 0;
    while k < cls.pairs.len()
        invariant
            cls.pairs@ == st.pairs,
            pass_wf(bodies0, st),
            k <= st.pairs.len(),
            game.bodies@.len() == bodies0.len(),
            game.score == score0,
            game.lost == old(game).lost,
            game.burst_steps == old(game).burst_steps,
            forall|i: int|
                0 <= i < bodies0.len() ==> game.bodies@[i] == if in_pairs_upto(
                    st.pairs,
                    k as int,
                    i,
                ) {
                    Body { alive: false, ..bodies0[i] }
                } else {
                    bodies0[i]
                },
            count_alive(game.bodies@) == count_alive(bodies0) - 2 * k,
            arena_wf(bodies0),
        decreases st.pairs.len() - k,
    {
        let p = cls.pairs[k];
        proof {
            assert(pair_live(bodies0, st.pairs[k as int]));
            assert(!in_pairs_upto(st.pairs, k as int, p.a as int) && !in_pairs_upto(
                st.pairs,
                k as int,
                p.b as int,
            )) by {
                assert forall|j: int| 0 <= j < k implies !((#[trigger] st.pairs[j]).a == p.a
                    || st.pairs[j].b == p.a || st.pairs[j].a == p.b || st.pairs[j].b == p.b) by {
                    assert(crate::classify::pairs_disjoint(st.pairs[j], st.pairs[k as int]));
                }
            }
        }
        let ghost before_a = game.bodies@;
        let mut ba = game.bodies[p.a];
        ba.alive = false;
        game.bodies.set(p.a, ba);
        proof {
            lemma_count_alive_despawn(before_a, game.bodies@, p.a as int);
        }
        let ghost before_b = game.bodies@;
        let mut bb = game.bodies[p.b];
        bb.alive = false;
        game.bodies.set(p.b, bb);
        proof {
            lemma_count_alive_despawn(before_b, game.bodies@, p.b as int);
            assert forall|i: int| 0 <= i < bodies0.len() implies (in_pairs_upto(
                st.pairs,
                k as int + 1,
                i,
            ) <==> (in_pairs_upto(st.pairs, k as int, i) || i == p.a || i == p.b)) by {
                if in_pairs_upto(st.pairs, k as int + 1, i) {
                    let j = choose|j: int|
                        0 <= j < k + 1 && ((#[trigger] st.pairs[j]).a == i || st.pairs[j].b == i);
                    if j < k {
                        assert(in_pairs_upto(st.pairs, k as int, i));
                    }
                }
                if in_pairs_upto(st.pairs, k as int, i) {
                    let j = choose|j: int|
                        0 <= j < k && ((#[trigger] st.pairs[j]).a == i || st.pairs[j].b == i);
                    assert(0 <= j < k + 1 && (st.pairs[j].a == i || st.pairs[j].b == i));
                }
                if i == p.a || i == p.b {
                    assert(0 <= k < k + 1 && (st.pairs[k as int].a == i || st.pairs[k as int].b
                        == i));
                }
            }
        }
        k = k + 1;
    }

    proof {
        assert forall|i: int| 0 <= i < bodies0.len() implies (in_pairs_upto(
            st.pairs,
            st.pairs.len() as int,
            i,
        ) <==> st.handled.contains(i)) by {
            if in_pairs_upto(st.pairs, st.pairs.len() as int, i) {
                let j = choose|j: int|
                    0 <= j < st.pairs.len() && ((#[trigger] st.pairs[j]).a == i || st.pairs[j].b
                        == i);
            }
        }
    }

    // Buffered commit, step two: propagate settling status.
    proof {
        assert forall|i: int| 0 <= i < bodies0.len() implies game.bodies@[i] == (Body {
            alive: bodies0[i].alive && !st.handled.contains(i),
            settling: bodies0[i].settling,
            ..bodies0[i]
        }) by {
            assert(in_pairs_upto(st.pairs, st.pairs.len() as int, i) <==> st.handled.contains(i));
        }
    }
    let ghost alive_count_mid = count_alive(game.bodies@);
    let mut w: usize = 0;
    while w < game.bodies.len()
        invariant
            game.bodies@.len() == bodies0.len(),
            w <= bodies0.len(),
            game.score == score0,
            game.lost == old(game).lost,
            game.burst_steps == old(game).burst_steps,
            forall|i: int|
                0 <= i < bodies0.len() ==> game.bodies@[i] == (Body {
                    alive: bodies0[i].alive && !st.handled.contains(i),
                    settling: bodies0[i].settling || (i < w && cls.woken@[i]),
                    ..bodies0[i]
                }),
            count_alive(game.bodies@) == alive_count_mid,
        decreases bodies0.len() - w,
    {
        let ghost before = game.bodies@;
        if cls.woken[w] {
            let mut b = game.bodies[w];
            b.settling = true;
            game.bodies.set(w, b);
        }
        proof {
            lemma_count_alive_same(before, game.bodies@);
        }
        w = w + 1;
    }

    // Buffered commit, step three: spawn the merged successors, each placed
    // at its corrected midpoint, and credit the score.
    let ghost mid = game.bodies@;
    proof {
        assert(st.pairs.skip(0) =~= st.pairs);
        assert forall|i: int| 0 <= i < bodies0.len() implies #[trigger] mid[i] == (Body {
            alive: bodies0[i].alive && !st.handled.contains(i),
            settling: bodies0[i].settling || st.woken.contains(i),
            ..bodies0[i]
        }) by {
            assert(mid[i] == game.bodies@[i]);
        }
        assert forall|i: int| 0 <= i < bodies0.len() implies body_wf(#[trigger] mid[i]) by {
            assert(body_wf(bodies0[i]));
        }
    }
    let mut k: usize = 0;
    while k < cls.pairs.len()
        invariant
            cls.pairs@ == st.pairs,
            pass_wf(bodies0, st),
            mid.len() == bodies0.len(),
            k <= st.pairs.len(),
            game.bodies@.len() == bodies0.len() + k,
            game.lost == old(game).lost,
            game.burst_steps == old(game).burst_steps,
            game.burst_steps <= crate::consts::MAX_BURST_STEPS,
            forall|i: int| 0 <= i < bodies0.len() ==> game.bodies@[i] == mid[i],
            forall|j: int|
                0 <= j < k ==> merged_body_ok(
                    bodies0,
                    st.handled,
                    st.pairs[j],
                    game.bodies@[bodies0.len() + j],
                ),
            count_alive(game.bodies@) == count_alive(mid) + k,
            pass_score(bodies0, st.pairs, score0) == pass_score(
                bodies0,
                st.pairs.skip(k as int),
                game.score,
            ),
            game.score >= score0,
            arena_wf(game.bodies@),
            arena_wf(mid),
            forall|i: int|
                0 <= i < bodies0.len() ==> (#[trigger] mid[i]).rank == bodies0[i].rank
                    && mid[i].pos == bodies0[i].pos && mid[i].angle == bodies0[i].angle,
            forall|i: int|
                0 <= i < bodies0.len() && (#[trigger] bodies0[i]).alive ==> bodies0[i].rank
                    < MAX_RANK,
            forall|j: int| 0 <= j < obstacles@.len() ==> obstacle_wf(#[trigger] obstacles@[j]),
        decreases st.pairs.len() - k,
    {
        let p = cls.pairs[k];
        proof {
            assert(pair_live(bodies0, st.pairs[k as int]));
            assert(game.bodies@[p.a as int] == mid[p.a as int]);
            assert(game.bodies@[p.b as int] == mid[p.b as int]);
            assert(mid[p.a as int].rank == bodies0[p.a as int].rank);
            assert(mid[p.b as int].rank == bodies0[p.b as int].rank);
            assert(body_wf(mid[p.a as int]) && body_wf(mid[p.b as int]));
        }
        let ba = game.bodies[p.a];
        let bb = game.bodies[p.b];
        let req = resolve_pair(&ba, &bb);
        let bnds = spawn_bounds(req.rank);
        proof {
            lemma_radius_bounded(req.rank as nat);
        }
        let rad = radius(req.rank);
        let (pos, _settled) = correct_position(req.pos, rad, &obstacles, bnds);
        proof {
            assert(mid[p.a as int].pos == bodies0[p.a as int].pos && mid[p.b as int].pos
                == bodies0[p.b as int].pos);
            assert(pos == merged_pos(bodies0, st.handled, st.pairs[k as int]));
        }
        let pts = score(req.rank);
        let ghost score_before = game.score;
        if game.score <= u64::MAX - pts {
            game.score = game.score + pts;
        } else {
            game.score = u64::MAX;
        }
        let ghost before_push = game.bodies@;
        game.bodies.push(
            Body {
                rank: req.rank,
                pos,
                angle: req.angle,
                alive: true,
                dynamic: true,
                enabled: true,
                settling: true,
            },
        );
        proof {
            lemma_count_alive_push(
                before_push,
                Body {
                    rank: req.rank,
                    pos,
                    angle: req.angle,
                    alive: true,
                    dynamic: true,
                    enabled: true,
                    settling: true,
                },
            );
            assert(st.pairs.skip(k as int).drop_first() =~= st.pairs.skip(k as int + 1));
            assert(st.pairs.skip(k as int)[0] == st.pairs[k as int]);
            assert(game.score == sat_add(
                score_before,
                score_spec((bodies0[st.pairs[k as int].a as int].rank + 1) as nat) as int,
            ));
        }
        k = k + 1;
    }
    proof {
        assert(st.pairs.skip(st.pairs.len() as int) =~= Seq::<CollisionPair>::empty());
        lemma_pass_score_ge(bodies0, st.pairs, score0);
        assert forall|i: int| 0 <= i < bodies0.len() implies game.bodies@[i] == (Body {
            alive: bodies0[i].alive && !st.handled.contains(i),
            settling: bodies0[i].settling || st.woken.contains(i),
            ..bodies0[i]
        }) by {
            assert(game.bodies@[i] == mid[i]);
            assert(mid[i] == (Body {
                alive: bodies0[i].alive && !st.handled.contains(i),
                settling: bodies0[i].settling || st.woken.contains(i),
                ..bodies0[i]
            }));
        }
        assert(bodies0 == old(game).bodies@);
    }
    cls.pairs.len()
}

} // verus!
