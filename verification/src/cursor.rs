//! The player-steered cursor: it holds at most one uncommitted, kinematic
//! disc that follows the cursor's horizontal position, plus a queued disc
//! whose rank is drawn from a seedable pseudo-random generator. Releasing
//! the held disc commits it to physics; the queued disc can be swapped in.
//! While the game is lost, every cursor action is inert.

use vstd::prelude::*;
use crate::body::Body;
use crate::consts::{COORD_LIMIT, CUP_CENTER_Y, CUP_HEIGHT, SUBPIX};
use crate::game::{game_wf, Game};

verus! {

/// Height at which the cursor releases discs into the cup.
pub const CURSOR_DROP_Y: u64 = CUP_CENTER_Y + CUP_HEIGHT / 2 + 25 * SUBPIX;

/// Time the cursor needs to produce the next held disc.
pub const REFILL_COOLDOWN_MS: u32 = 1000;

/// Multiplier of the linear-congruential rank generator.
pub const RNG_MUL: u64 = 6364136223846793005;

/// Increment of the linear-congruential rank generator.
pub const RNG_INC: u64 = 1442695040888963407;

/// The player-steered entity.
#[derive(Clone, Copy, PartialEq, Eq, Structural, Debug)]
pub struct Cursor {
    /// Horizontal position the held disc follows.
    pub x: u64,
    /// Arena index of the held, still-kinematic disc, if any.
    pub current: Option<usize>,
    /// Arena index of the queued disc shown next to the cursor.
    pub next: usize,
    /// Milliseconds accumulated towards the next refill.
    pub cooldown_ms: u32,
}

/// One step of the linear-congruential generator.
pub open spec fn rng_step(s: u64) -> u64 {
    ((s * RNG_MUL + RNG_INC) % 0x1_0000_0000_0000_0000) as u64
}

/// The rank drawn from a generator state: one of 0, 1 and 2.
pub open spec fn rng_rank(s: u64) -> u32 {
    (((s >> 33) % 3) as u32)
}

/// Advances the seedable pseudo-random generator and draws the rank of the
/// next queued disc: always one of the three lowest ranks.
pub fn draw_rank(seed: &mut u64) -> (rank: u32)
    ensures
        *final(seed) == rng_step(*old(seed)),
        rank == rng_rank(*final(seed)),
        rank <= 2,
{
    *seed = seed.wrapping_mul(RNG_MUL).wrapping_add(RNG_INC);
    proof {
        let ghost s0 = *old(seed);
        let ghost s1 = *seed;
        assert(s1 == rng_step(s0)) by (nonlinear_arith)
            requires
                s1 == vstd::wrapping::u64_specs::wrapping_add(
                    vstd::wrapping::u64_specs::wrapping_mul(s0, RNG_MUL),
                    RNG_INC,
                ),
        ;
    }
    ((*seed >> 33) % 3) as u32
}

/// Moves the cursor sideways by `amount` units, to the right when `right`
/// holds, never leaving the representable range.
pub fn move_cursor(cursor: &mut Cursor, right: bool, amount: u64)
    ensures
        final(cursor).x == if right {
            if old(cursor).x + amount <= COORD_LIMIT {
                old(cursor).x + amount
            } else {
                COORD_LIMIT as int
            }
        } else {
            if old(cursor).x >= amount {
                old(cursor).x - amount
            } else {
                0int
            }
        },
        final(cursor).current == old(cursor).current,
        final(cursor).next == old(cursor).next,
        final(cursor).cooldown_ms == old(cursor).cooldown_ms,
{
    if right {
        if amount <= COORD_LIMIT && cursor.x <= COORD_LIMIT - amount {
            cursor.x = cursor.x + amount;
        } else {
            cursor.x = COORD_LIMIT;
        }
    } else {
        if cursor.x >= amount {
            cursor.x = cursor.x - amount;
        } else {
            cursor.x = 0;
        }
    }
}

/// The held disc follows the cursor: its horizontal position is set to the
/// cursor's. Inert while lost, without a held disc, or with a stale index.
pub fn track_current(game: &mut Game, cursor: &Cursor)
    requires
        cursor.x <= COORD_LIMIT,
        game_wf(*old(game)),
    ensures
        final(game).bodies@.len() == old(game).bodies@.len(),
        forall|i: int|
            0 <= i < old(game).bodies@.len() ==> final(game).bodies@[i] == if !old(game).lost
                && cursor.current == Some(i as usize) && old(game).bodies@[i].alive {
                Body {
                    pos: crate::geom::Pos { x: cursor.x, y: old(game).bodies@[i].pos.y },
                    ..old(game).bodies@[i]
                }
            } else {
                old(game).bodies@[i]
            },
        final(game).score == old(game).score,
        final(game).lost == old(game).lost,
        final(game).burst_steps == old(game).burst_steps,
        game_wf(*final(game)),
{
    if game.lost {
        return ;
    }
    if let Some(id) = cursor.current {
        if id < game.bodies.len() {
            let mut b = game.bodies[id];
            if b.alive {
                b.pos.x = cursor.x;
                game.bodies.set(id, b);
            }
        }
    }
}

/// Releasing the held disc: it becomes a free-falling, enabled, settling
/// body and the cursor holds nothing. Inert while lost, without a held
/// disc, or with a stale index.
pub fn drop_current(game: &mut Game, cursor: &mut Cursor)
    requires
        game_wf(*old(game)),
    ensures
        final(game).bodies@.len() == old(game).bodies@.len(),
        forall|i: int|
            0 <= i < old(game).bodies@.len() ==> final(game).bodies@[i] == if !old(game).lost
                && old(cursor).current == Some(i as usize) && old(game).bodies@[i].alive {
                Body {
                    dynamic: true,
                    enabled: true,
                    settling: true,
                    ..old(game).bodies@[i]
                }
            } else {
                old(game).bodies@[i]
            },
        *final(cursor) == if !old(game).lost {
            Cursor { current: None, ..*old(cursor) }
        } else {
            *old(cursor)
        },
        final(game).score == old(game).score,
        final(game).lost == old(game).lost,
        final(game).burst_steps == old(game).burst_steps,
        game_wf(*final(game)),
{
    if game.lost {
        return ;
    }
    if let Some(id) = cursor.current {
        if id < game.bodies.len() {
            let mut b = game.bodies[id];
            if b.alive {
                b.dynamic = true;
                b.enabled = true;
                b.settling = true;
                game.bodies.set(id, b);
            }
        }
        cursor.current = None;
    }
}

/// Swapping the held disc with the queued one: the two discs trade places
/// and the cursor's two references trade roles. Inert while lost, without
/// a held disc, or with stale or equal indices.
pub fn swap_discs(game: &mut Game, cursor: &mut Cursor)
    requires
        game_wf(*old(game)),
    ensures
        ({
            let active = !old(game).lost && old(cursor).current is Some
                && old(cursor).current.unwrap() < old(game).bodies@.len() && old(cursor).next < old(
                game,
            ).bodies@.len() && old(cursor).current.unwrap() != old(cursor).next;
            let c = old(cursor).current.unwrap() as int;
            let q = old(cursor).next as int;
            &&& final(game).bodies@.len() == old(game).bodies@.len()
            &&& forall|i: int|
                0 <= i < old(game).bodies@.len() ==> final(game).bodies@[i] == if active && i == c {
                    Body { pos: old(game).bodies@[q].pos, ..old(game).bodies@[c] }
                } else if active && i == q {
                    Body { pos: old(game).bodies@[c].pos, ..old(game).bodies@[q] }
                } else {
                    old(game).bodies@[i]
                }
            &&& *final(cursor) == if active {
                Cursor {
                    current: Some(old(cursor).next),
                    next: old(cursor).current.unwrap(),
                    ..*old(cursor)
                }
            } else {
                *old(cursor)
            }
            &&& final(game).score == old(game).score
            &&& final(game).lost == old(game).lost
            &&& final(game).burst_steps == old(game).burst_steps
            &&& game_wf(*final(game))
        }),
{
    if game.lost {
        return ;
    }
    if let Some(id) = cursor.current {
        if id < game.bodies.len() && cursor.next < game.bodies.len() && id != cursor.next {
            let q = cursor.next;
            let mut bc = game.bodies[id];
            let mut bq = game.bodies[q];
            let pc = bc.pos;
            bc.pos = bq.pos;
            bq.pos = pc;
            game.bodies.set(id, bc);
            game.bodies.set(q, bq);
            cursor.current = Some(q);
            cursor.next = id;
        }
    }
}

/// Accumulates frame time towards the next refill; reports readiness and
/// restarts the countdown once the cooldown elapses.
pub fn tick_cooldown(cursor: &mut Cursor, dt_ms: u32) -> (ready: bool)
    ensures
        ready == (old(cursor).cooldown_ms + dt_ms >= REFILL_COOLDOWN_MS),
        final(cursor).cooldown_ms == if ready {
            0int
        } else {
            old(cursor).cooldown_ms + dt_ms
        },
        final(cursor).x == old(cursor).x,
        final(cursor).current == old(cursor).current,
        final(cursor).next == old(cursor).next,
{
    if dt_ms >= REFILL_COOLDOWN_MS || cursor.cooldown_ms >= REFILL_COOLDOWN_MS - dt_ms {
        cursor.cooldown_ms = 0;
        return true;
    }
    cursor.cooldown_ms = cursor.cooldown_ms + dt_ms;
    false
}

/// Hands the queued disc to the cursor: a fresh kinematic body with the
/// queued disc's rank appears at the cursor, becomes the held disc, and
/// the queued disc is re-rolled to a fresh low rank from the seedable
/// generator. Inert while lost or with a stale queued index.
pub fn refill_current(game: &mut Game, cursor: &mut Cursor, seed: &mut u64)
    requires
        cursor.x <= COORD_LIMIT,
        game_wf(*old(game)),
    ensures
        ({
            let active = !old(game).lost && old(cursor).next < old(game).bodies@.len() && old(
                game,
            ).bodies@[old(cursor).next as int].alive;
            let q = old(cursor).next as int;
            let n0 = old(game).bodies@.len() as int;
            &&& final(game).bodies@.len() == if active {
                n0 + 1
            } else {
                n0
            }
            &&& forall|i: int|
                0 <= i < n0 ==> final(game).bodies@[i] == if active && i == q {
                    Body { rank: rng_rank(rng_step(*old(seed))), ..old(game).bodies@[q] }
                } else {
                    old(game).bodies@[i]
                }
            &&& active ==> final(game).bodies@[n0] == (Body {
                rank: old(game).bodies@[q].rank,
                pos: crate::geom::Pos { x: old(cursor).x, y: CURSOR_DROP_Y },
                angle: 0,
                alive: true,
                dynamic: false,
                enabled: true,
                settling: false,
            })
            &&& *final(cursor) == if active {
                Cursor { current: Some(n0 as usize), ..*old(cursor) }
            } else {
                *old(cursor)
            }
            &&& *final(seed) == if active {
                rng_step(*old(seed))
            } else {
                *old(seed)
            }
            &&& final(game).score == old(game).score
            &&& final(game).lost == old(game).lost
            &&& final(game).burst_steps == old(game).burst_steps
            &&& game_wf(*final(game))
        }),
{
    if game.lost {
        return ;
    }
    let q = cursor.next;
    if q >= game.bodies.len() {
        return ;
    }
    let old_q = game.bodies[q];
    if !old_q.alive {
        return ;
    }
    let id = game.spawn_body(
        old_q.rank,
        crate::geom::Pos { x: cursor.x, y: CURSOR_DROP_Y },
        0,
        false,
    );
    let fresh = draw_rank(seed);
    let mut bq = game.bodies[q];
    bq.rank = fresh;
    game.bodies.set(q, bq);
    cursor.current = Some(id);
}

} // verus!
