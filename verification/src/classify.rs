//! The collision classifier. The physics engine reports collision-start
//! events, each naming two body indices; one classification pass walks them
//! in arrival order and turns them into merge pairs, with first-seen-pair
//! wins: a body already committed to a merge is never paired again in the
//! same pass. Events whose bodies differ in rank instead propagate settling
//! status, so that a sleeping stack woken by a settling disc keeps settling.

use vstd::prelude::*;
use crate::body::Body;

verus! {

/// One collision-start event: the arena indices of the two participants.
#[derive(Clone, Copy, PartialEq, Eq, Structural, Debug)]
pub struct CollisionPair {
    pub a: usize,
    pub b: usize,
}

/// Outcome of one classification pass, in specification form.
pub struct PassState {
    /// Bodies committed to a merge during this pass.
    pub handled: Set<int>,
    /// Merge pairs, in event order.
    pub pairs: Seq<CollisionPair>,
    /// Bodies whose settling status was propagated this pass.
    pub woken: Set<int>,
}

/// Both participants can still be looked up: distinct, in range and alive
/// in the snapshot taken before the pass.
pub open spec fn event_live(bodies: Seq<Body>, a: int, b: int) -> bool {
    &&& 0 <= a < bodies.len()
    &&& 0 <= b < bodies.len()
    &&& a != b
    &&& bodies[a].alive
    &&& bodies[b].alive
}

/// A body counts as settling at this point of the pass if its snapshot flag
/// is set or an earlier event of the pass woke it.
pub open spec fn pass_settling(bodies: Seq<Body>, st: PassState, i: int) -> bool {
    bodies[i].settling || st.woken.contains(i)
}

/// Settling propagation for one non-merging event: if either participant is
/// settling, both join the woken set, except participants already committed
/// to a merge (their merged successor joins the settling set instead).
pub open spec fn pass_wake(bodies: Seq<Body>, st: PassState, a: int, b: int) -> PassState {
    if pass_settling(bodies, st, a) || pass_settling(bodies, st, b) {
        let w1 = if !st.handled.contains(a) {
            st.woken.insert(a)
        } else {
            st.woken
        };
        let w2 = if !st.handled.contains(b) {
            w1.insert(b)
        } else {
            w1
        };
        PassState { handled: st.handled, pairs: st.pairs, woken: w2 }
    } else {
        st
    }
}

/// Effect of one event on the pass state, in arrival order: a stale or
/// self-referring event is dropped; an event touching an already-handled
/// body only propagates settling; an equal-rank event commits both bodies
/// to a merge; an unequal-rank event propagates settling.
pub open spec fn pass_step(bodies: Seq<Body>, st: PassState, a: int, b: int) -> PassState {
    if !event_live(bodies, a, b) {
        st
    } else if st.handled.contains(a) || st.handled.contains(b) {
        pass_wake(bodies, st, a, b)
    } else if bodies[a].rank == bodies[b].rank {
        PassState {
            handled: st.handled.insert(a).insert(b),
            pairs: st.pairs.push(CollisionPair { a: a as usize, b: b as usize }),
            woken: st.woken,
        }
    } else {
        pass_wake(bodies, st, a, b)
    }
}

/// State of the pass after the first `n` events.
pub open spec fn pass_upto(bodies: Seq<Body>, events: Seq<CollisionPair>, n: int) -> PassState
    decreases n,
{
    if n <= 0 {
        PassState { handled: Set::empty(), pairs: Seq::empty(), woken: Set::empty() }
    } else {
        pass_step(
            bodies,
            pass_upto(bodies, events, n - 1),
            events[n - 1].a as int,
            events[n - 1].b as int,
        )
    }
}

/// State of the whole classification pass.
pub open spec fn pass_spec(bodies: Seq<Body>, events: Seq<CollisionPair>) -> PassState {
    pass_upto(bodies, events, events.len() as int)
}

/// A committed merge pair: both participants can be looked up and share one
/// rank.
pub open spec fn pair_live(bodies: Seq<Body>, p: CollisionPair) -> bool {
    &&& event_live(bodies, p.a as int, p.b as int)
    &&& bodies[p.a as int].rank == bodies[p.b as int].rank
}

/// The four participants of two merge pairs are four different bodies.
pub open spec fn pairs_disjoint(p1: CollisionPair, p2: CollisionPair) -> bool {
    &&& p1.a != p2.a
    &&& p1.a != p2.b
    &&& p1.b != p2.a
    &&& p1.b != p2.b
}

/// Soundness of a pass state: every pair is a live equal-rank pair, every
/// participant is in the handled set, no body sits in two pairs, and the
/// woken set only holds live bodies.
pub open spec fn pass_wf(bodies: Seq<Body>, st: PassState) -> bool {
    &&& forall|k: int| 0 <= k < st.pairs.len() ==> pair_live(bodies, #[trigger] st.pairs[k])
    &&& forall|k: int|
        0 <= k < st.pairs.len() ==> st.handled.contains((#[trigger] st.pairs[k]).a as int)
            && st.handled.contains(st.pairs[k].b as int)
    &&& forall|i: int|
        st.handled.contains(i) ==> exists|k: int|
            0 <= k < st.pairs.len() && ((#[trigger] st.pairs[k]).a == i || st.pairs[k].b == i)
    &&& forall|k1: int, k2: int|
        0 <= k1 < k2 < st.pairs.len() ==> pairs_disjoint(
            #[trigger] st.pairs[k1],
            #[trigger] st.pairs[k2],
        )
    &&& forall|i: int|
        #[trigger] st.woken.contains(i) ==> 0 <= i < bodies.len() && bodies[i].alive
}

/// Every pass prefix is sound; in particular no body participates in more
/// than one merge within one classification pass.
pub proof fn lemma_pass_wf(bodies: Seq<Body>, events: Seq<CollisionPair>, n: int)
    requires
        n <= events.len(),
    ensures
        pass_wf(bodies, pass_upto(bodies, events, n)),
    decreases n,
{
    if n > 0 {
        lemma_pass_wf(bodies, events, n - 1);
        let st = pass_upto(bodies, events, n - 1);
        let a = events[n - 1].a as int;
        let b = events[n - 1].b as int;
        let st2 = pass_upto(bodies, events, n);
        if event_live(bodies, a, b) && !st.handled.contains(a) && !st.handled.contains(b)
            && bodies[a].rank == bodies[b].rank {
            let p = CollisionPair { a: a as usize, b: b as usize };
            assert(st2.pairs == st.pairs.push(p));
            assert forall|i: int| st2.handled.contains(i) implies exists|k: int|
                0 <= k < st2.pairs.len() && ((#[trigger] st2.pairs[k]).a == i || st2.pairs[k].b
                    == i) by {
                if i == a || i == b {
                    assert(st2.pairs[st.pairs.len() as int] == p);
                } else {
                    let k = choose|k: int|
                        0 <= k < st.pairs.len() && ((#[trigger] st.pairs[k]).a == i
                            || st.pairs[k].b == i);
                    assert(st2.pairs[k] == st.pairs[k]);
                }
            }
            assert forall|k1: int, k2: int| 0 <= k1 < k2 < st2.pairs.len() implies pairs_disjoint(
                #[trigger] st2.pairs[k1],
                #[trigger] st2.pairs[k2],
            ) by {
                if k2 == st.pairs.len() {
                    assert(st.handled.contains(st.pairs[k1].a as int));
                    assert(st.handled.contains(st.pairs[k1].b as int));
                }
            }
        }
    }
}

/// Builds a vector of `n` cleared flags.
fn false_flags(n: usize) -> (v: Vec<bool>)
    ensures
        v@.len() == n,
        forall|i: int| 0 <= i < n ==> !v@[i],
{
    let mut v: Vec<bool> = Vec::new();
    let mut i: usize = 0;
    while i < n
        invariant
            i <= n,
            v@.len() == i,
            forall|j: int| 0 <= j < i ==> !v@[j],
        decreases n - i,
    {
        v.push(false);
        i = i + 1;
    }
    v
}

/// Outcome of one classification pass in executable form: the merge pairs
/// in event order, and per-body flags for the handled and woken sets.
pub struct Classification {
    pub pairs: Vec<CollisionPair>,
    pub handled: Vec<bool>,
    pub woken: Vec<bool>,
}

/// Runs one classification pass over the events in arrival order.
pub fn classify(bodies: &Vec<Body>, events: &Vec<CollisionPair>) -> (out: Classification)
    ensures
        out.handled@.len() == bodies@.len(),
        out.woken@.len() == bodies@.len(),
        out.pairs@ == pass_spec(bodies@, events@).pairs,
        forall|i: int|
            0 <= i < bodies@.len() ==> out.handled@[i] == pass_spec(bodies@, events@).handled.contains(i),
        forall|i: int|
            0 <= i < bodies@.len() ==> out.woken@[i] == pass_spec(bodies@, events@).woken.contains(i),
        pass_wf(bodies@, pass_spec(bodies@, events@)),
{
    let n = bodies.len();
    let mut handled = false_flags(n);
    let mut woken = false_flags(n);
    let mut pairs: Vec<CollisionPair> = Vec::new();
    let mut e: usize = 0;
    proof {
        assert(pass_upto(bodies@, events@, 0).handled =~= Set::<int>::empty());
    }
    while e < events.len()
        invariant
            e <= events@.len(),
            handled@.len() == bodies@.len(),
            woken@.len() == bodies@.len(),
            pairs@ == pass_upto(bodies@, events@, e as int).pairs,
            forall|i: int|
                0 <= i < bodies@.len() ==> handled@[i] == pass_upto(
                    bodies@,
                    events@,
                    e as int,
                ).handled.contains(i),
            forall|i: int|
                0 <= i < bodies@.len() ==> woken@[i] == pass_upto(
                    bodies@,
                    events@,
                    e as int,
                ).woken.contains(i),
        decreases events@.len() - e,
    {
        let ghost st = pass_upto(bodies@, events@, e as int);
        proof {
            lemma_pass_wf(bodies@, events@, e as int);
            assert(pass_upto(bodies@, events@, e as int + 1) == pass_step(
                bodies@,
                st,
                events@[e as int].a as int,
                events@[e as int].b as int,
            ));
        }
        let ev = events[e];
        let a = ev.a;
        let b = ev.b;
        if a < bodies.len() && b < bodies.len() && a != b && bodies[a].alive && bodies[b].alive {
            if handled[a] || handled[b] || bodies[a].rank != bodies[b].rank {
                let sa = bodies[a].settling || woken[a];
                let sb = bodies[b].settling || woken[b];
                if sa || sb {
                    if !handled[a] {
                        woken.set(a, true);
                    }
                    if !handled[b] {
                        woken.set(b, true);
                    }
                }
            } else {
                handled.set(a, true);
                handled.set(b, true);
                pairs.push(ev);
            }
        }
        e = e + 1;
    }
    proof {
        lemma_pass_wf(bodies@, events@, events@.len() as int);
    }
    Classification { pairs, handled, woken }
}

} // verus!
