//! The rank ladder: each disc carries a non-negative integer rank, and its
//! radius and score value are pure functions of that rank. Every other
//! component takes radius and score from here and nowhere else.

use vstd::prelude::*;
use crate::consts::{BASE_RADIUS, MAX_DISC_RADIUS, MAX_RANK, RADIUS_STEP};

verus! {

/// Rank reached by merging two discs of rank `rank`.
pub open spec fn next_spec(rank: nat) -> nat {
    rank + 1
}

/// Radius of a disc of rank `rank`: linear growth from the base radius.
pub open spec fn radius_spec(rank: nat) -> nat {
    (BASE_RADIUS + RADIUS_STEP * rank) as nat
}

/// Score value of a disc of rank `rank`: a small base amount at rank 0,
/// doubling with every rank.
pub open spec fn score_spec(rank: nat) -> nat
    decreases rank,
{
    if rank == 0 {
        5
    } else {
        2 * score_spec((rank - 1) as nat)
    }
}

/// Rank reached by merging two discs of rank `rank`.
pub fn next_rank(rank: u32) -> (r: u32)
    requires
        rank < u32::MAX,
    ensures
        r == next_spec(rank as nat),
{
    rank + 1
}

/// Radius of a disc of rank `rank`, in fixed-point units.
pub fn radius(rank: u32) -> (r: u64)
    ensures
        r == radius_spec(rank as nat),
{
    BASE_RADIUS + RADIUS_STEP * (rank as u64)
}

/// Score value of a disc of rank `rank`. The rank is capped so that the
/// value fits the 64-bit score counter; every rank that fits the cup is
/// far below the cap.
pub fn score(rank: u32) -> (s: u64)
    requires
        rank <= 61,
    ensures
        s == score_spec(rank as nat),
{
    let mut s: u64 = 5;
    let mut i: u32 = 0;
    while i < rank
        invariant
            i <= rank <= 61,
            s == score_spec(i as nat),
        decreases rank - i,
    {
        proof {
            lemma_score_mono((i + 1) as nat, 61);
            lemma_score_is_five_pow2(61);
            vstd::arithmetic::power2::lemma2_to64_rest();
        }
        s = s * 2;
        i = i + 1;
    }
    s
}

/// The doubling ladder is five times a power of two.
proof fn lemma_score_is_five_pow2(rank: nat)
    ensures
        score_spec(rank) == 5 * vstd::arithmetic::power2::pow2(rank),
    decreases rank,
{
    if rank == 0 {
        vstd::arithmetic::power2::lemma2_to64();
    } else {
        lemma_score_is_five_pow2((rank - 1) as nat);
        vstd::arithmetic::power2::lemma_pow2_unfold(rank);
    }
}

/// Every rank's score value is positive.
pub proof fn lemma_score_pos(rank: nat)
    ensures
        score_spec(rank) >= 5,
    decreases rank,
{
    if rank > 0 {
        lemma_score_pos((rank - 1) as nat);
    }
}

/// The score value never shrinks as the rank grows.
pub proof fn lemma_score_mono(a: nat, b: nat)
    requires
        a <= b,
    ensures
        score_spec(a) <= score_spec(b),
    decreases b,
{
    if a < b {
        lemma_score_mono(a, (b - 1) as nat);
        lemma_score_pos((b - 1) as nat);
    }
}

/// No disc that fits the cup has a radius above `MAX_DISC_RADIUS`.
pub proof fn lemma_radius_bounded(rank: nat)
    requires
        rank <= MAX_RANK,
    ensures
        radius_spec(rank) <= MAX_DISC_RADIUS,
{
    assert(RADIUS_STEP * rank <= RADIUS_STEP * (MAX_RANK as nat)) by (nonlinear_arith)
        requires
            rank <= MAX_RANK as nat,
    ;
}

/// Moving up the ladder strictly grows both the radius and the score: for
/// every rank `R`, the disc of rank `next(R)` is larger and worth more than
/// the disc of rank `R`.
pub proof fn lemma_next_rank_grows(rank: nat)
    ensures
        radius_spec(next_spec(rank)) > radius_spec(rank),
        score_spec(next_spec(rank)) > score_spec(rank),
{
    lemma_score_pos(rank);
    assert(RADIUS_STEP * (rank + 1) == RADIUS_STEP * rank + RADIUS_STEP) by (nonlinear_arith);
}

} // verus!
