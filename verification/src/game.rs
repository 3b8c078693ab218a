//! The simulation context: the body arena, the score accumulator, the loss
//! flag and the burst-step counter. Each field is owned here and mutated
//! only through the functions of this crate, once per control tick.

use vstd::prelude::*;
use crate::body::{arena_wf, Body};
use crate::consts::{ANGLE_FULL, COORD_LIMIT, LOSS_HEIGHT, MAX_BURST_STEPS, MAX_RANK};
use crate::geom::Pos;

verus! {

/// The whole core state of one running game.
pub struct Game {
    pub bodies: Vec<Body>,
    pub score: u64,
    pub lost: bool,
    pub burst_steps: u32,
}

/// Invariant of the simulation context: every arena entry is well-formed
/// and the burst counter never exceeds its cap.
pub open spec fn game_wf(g: Game) -> bool {
    arena_wf(g.bodies@) && g.burst_steps <= MAX_BURST_STEPS
}

/// Saturating addition, the semantics of the score accumulator.
pub open spec fn sat_add(a: u64, b: int) -> u64 {
    if a + b > u64::MAX {
        u64::MAX
    } else {
        (a + b) as u64
    }
}

/// A body that triggers the loss condition: alive, free-falling, and with
/// its center below the loss line.
pub open spec fn below_loss_line(bodies: Seq<Body>, i: int) -> bool {
    &&& 0 <= i < bodies.len()
    &&& bodies[i].alive
    &&& bodies[i].dynamic
    &&& bodies[i].pos.y < LOSS_HEIGHT
}

impl Game {
    /// A fresh game: empty arena, zero score, playing state.
    pub fn new() -> (g: Game)
        ensures
            g.bodies@.len() == 0,
            g.score == 0,
            !g.lost,
            g.burst_steps == 0,
            game_wf(g),
    {
        Game { bodies: Vec::new(), score: 0, lost: false, burst_steps: 0 }
    }

    /// Adds points to the score accumulator, saturating at the counter's
    /// ceiling; the accumulated score never decreases.
    pub fn add_score(&mut self, amount: u64)
        ensures
            final(self).score == sat_add(old(self).score, amount as int),
            final(self).score >= old(self).score,
            final(self).bodies == old(self).bodies,
            final(self).lost == old(self).lost,
            final(self).burst_steps == old(self).burst_steps,
    {
        if self.score <= u64::MAX - amount {
            self.score = self.score + amount;
        } else {
            self.score = u64::MAX;
        }
    }

    /// Appends a fresh body to the arena and returns its index.
    pub fn spawn_body(&mut self, rank: u32, pos: Pos, angle: u64, dynamic: bool) -> (id: usize)
        requires
            rank <= MAX_RANK,
            pos.x <= COORD_LIMIT,
            pos.y <= COORD_LIMIT,
            angle < ANGLE_FULL,
            game_wf(*old(self)),
        ensures
            id == old(self).bodies@.len(),
            final(self).bodies@.len() == old(self).bodies@.len() + 1,
            forall|i: int| 0 <= i < id ==> final(self).bodies@[i] == old(self).bodies@[i],
            final(self).bodies@[id as int] == (Body {
                rank,
                pos,
                angle,
                alive: true,
                dynamic,
                enabled: true,
                settling: dynamic,
            }),
            final(self).score == old(self).score,
            final(self).lost == old(self).lost,
            final(self).burst_steps == old(self).burst_steps,
            game_wf(*final(self)),
    {
        let id = self.bodies.len();
        self.bodies.push(
            Body { rank, pos, angle, alive: true, dynamic, enabled: true, settling: dynamic },
        );
        id
    }

    /// Loss detection: while playing, the loss flag is raised exactly when
    /// some alive free-falling body has sunk below the loss line; once
    /// raised, the flag stays raised until an explicit restart.
    pub fn check_for_loss(&mut self)
        ensures
            final(self).lost == (old(self).lost || exists|i: int|
                below_loss_line(old(self).bodies@, i)),
            final(self).bodies == old(self).bodies,
            final(self).score == old(self).score,
            final(self).burst_steps == old(self).burst_steps,
    {
        if self.lost {
            return ;
        }
        let mut i: usize = 0;
        let n = self.bodies.len();
        while i < n
            invariant
                n == self.bodies@.len(),
                i <= n,
                !self.lost,
                self.bodies == old(self).bodies,
                self.score == old(self).score,
                self.burst_steps == old(self).burst_steps,
                forall|j: int| 0 <= j < i ==> !below_loss_line(self.bodies@, j),
            decreases n - i,
        {
            let b = self.bodies[i];
            if b.alive && b.dynamic && b.pos.y < LOSS_HEIGHT {
                proof {
                    assert(below_loss_line(old(self).bodies@, i as int));
                }
                self.lost = true;
                return ;
            }
            i = i + 1;
        }
    }

    /// Explicit restart after a loss: every free-falling body is despawned,
    /// the score is reset to exactly zero and play resumes.
    pub fn restart(&mut self)
        ensures
            final(self).score == 0,
            !final(self).lost,
            final(self).bodies@.len() == old(self).bodies@.len(),
            forall|i: int|
                0 <= i < final(self).bodies@.len() ==> final(self).bodies@[i] == if old(
                    self,
                ).bodies@[i].dynamic {
                    Body { alive: false, ..old(self).bodies@[i] }
                } else {
                    old(self).bodies@[i]
                },
            final(self).burst_steps == old(self).burst_steps,
            game_wf(*old(self)) ==> game_wf(*final(self)),
    {
        let mut i: usize = 0;
        let n = self.bodies.len();
        while i < n
            invariant
                n == self.bodies@.len(),
                i <= n,
                self.score == old(self).score,
                self.lost == old(self).lost,
                self.burst_steps == old(self).burst_steps,
                forall|j: int|
                    0 <= j < n ==> self.bodies@[j] == if j < i && old(self).bodies@[j].dynamic {
                        Body { alive: false, ..old(self).bodies@[j] }
                    } else {
                        old(self).bodies@[j]
                    },
            decreases n - i,
        {
            if self.bodies[i].dynamic {
                let mut b = self.bodies[i];
                b.alive = false;
                self.bodies.set(i, b);
            }
            i = i + 1;
        }
        self.score = 0;
        self.lost = false;
    }
}

} // verus!
