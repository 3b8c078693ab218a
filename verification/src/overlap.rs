//! Post-merge overlap correction. A merged body spawns at the midpoint of
//! two just-despawned discs, which is likely to overlap a neighbour; before
//! the body is handed to the physics engine its position is relaxed away
//! from every overlapping neighbour and clamped into the container, for a
//! fixed maximum number of passes.

use vstd::prelude::*;
use crate::consts::{COORD_LIMIT, CUP_CENTER_Y, CUP_HEIGHT, CUP_THICKNESS, CUP_WIDTH, MAX_CORRECTION_PASSES, MAX_DISC_RADIUS, MAX_RANK};
use crate::geom::{abs_diff, bounds_wf, clamp, clamp_spec, dist_sq, dist_squared, in_bounds, isqrt, isqrt_spec, pos_bounded, Bounds, Pos};
use crate::rank::{radius, radius_spec};

verus! {

/// A neighbour the corrector must keep clear of: its position and radius,
/// taken from the world snapshot of the current pass.
#[derive(Clone, Copy, PartialEq, Eq, Structural, Debug)]
pub struct Obstacle {
    pub pos: Pos,
    pub radius: u64,
}

/// Field ranges for an obstacle record.
pub open spec fn obstacle_wf(o: Obstacle) -> bool {
    pos_bounded(o.pos) && o.radius <= MAX_DISC_RADIUS
}

/// A disc of radius `r` centered at `p` does not overlap the obstacle.
pub open spec fn clear_of(p: Pos, r: u64, o: Obstacle) -> bool {
    dist_sq(p, o.pos) >= (r + o.radius) * (r + o.radius)
}

/// Interior bounds available to the center of a disc of the given rank:
/// the cup's width minus a wall on each side, and the cup's floor below.
pub open spec fn spawn_bounds_spec(rank: nat) -> Bounds {
    Bounds {
        x_min: (CUP_THICKNESS / 2 + radius_spec(rank)) as u64,
        x_max: (CUP_WIDTH - CUP_THICKNESS / 2 - radius_spec(rank)) as u64,
        y_min: (CUP_CENTER_Y - (CUP_HEIGHT - CUP_THICKNESS) / 2 + radius_spec(rank)) as u64,
    }
}

/// Interior bounds for the center of a disc of rank `rank`.
pub fn spawn_bounds(rank: u32) -> (b: Bounds)
    requires
        rank <= MAX_RANK,
    ensures
        b == spawn_bounds_spec(rank as nat),
        bounds_wf(b),
{
    let r = radius(rank);
    Bounds {
        x_min: CUP_THICKNESS / 2 + r,
        x_max: CUP_WIDTH - CUP_THICKNESS / 2 - r,
        y_min: CUP_CENTER_Y - (CUP_HEIGHT - CUP_THICKNESS) / 2 + r,
    }
}

/// Where one push moves an overlapping disc of radius `r` at `p`: to the
/// obstacle's rim along the line joining the two centers (components
/// rounded down), or to the obstacle's own center when the two centers
/// coincide, and clamped back into bounds either way.
pub open spec fn pushed_spec(p: Pos, r: u64, o: Obstacle, b: Bounds) -> Pos {
    let rsum = r + o.radius;
    let dist = isqrt_spec(dist_sq(p, o.pos));
    if dist == 0 {
        clamp_spec(o.pos, b)
    } else {
        let dx = if p.x >= o.pos.x {
            p.x - o.pos.x
        } else {
            o.pos.x - p.x
        };
        let dy = if p.y >= o.pos.y {
            p.y - o.pos.y
        } else {
            o.pos.y - p.y
        };
        let ox = dx * rsum / dist;
        let oy = dy * rsum / dist;
        let nx = if p.x >= o.pos.x {
            o.pos.x + ox
        } else if o.pos.x >= ox {
            o.pos.x - ox
        } else {
            0
        };
        let ny = if p.y >= o.pos.y {
            o.pos.y + oy
        } else if o.pos.y >= oy {
            o.pos.y - oy
        } else {
            0
        };
        clamp_spec(Pos { x: nx as u64, y: ny as u64 }, b)
    }
}

/// State of one relaxation pass after the first `j` obstacles, in order:
/// the disc's position, and whether any of those obstacles overlapped it
/// when its turn came.
pub open spec fn relax_pass_spec(p: Pos, r: u64, others: Seq<Obstacle>, b: Bounds, j: int) -> (
    Pos,
    bool,
)
    decreases j,
{
    if j <= 0 {
        (p, false)
    } else {
        let (q, c) = relax_pass_spec(p, r, others, b, j - 1);
        if clear_of(q, r, others[j - 1]) {
            (q, c)
        } else {
            (pushed_spec(q, r, others[j - 1], b), true)
        }
    }
}

/// The whole relaxation from `p`: passes run until one finds no overlap to
/// correct, or `passes` are exhausted; the flag reports convergence.
pub open spec fn relax_spec(p: Pos, r: u64, others: Seq<Obstacle>, b: Bounds, passes: int) -> (
    Pos,
    bool,
)
    decreases passes,
{
    if passes <= 0 {
        (p, false)
    } else {
        let (q, corrected) = relax_pass_spec(p, r, others, b, others.len() as int);
        if !corrected {
            (q, true)
        } else {
            relax_spec(q, r, others, b, passes - 1)
        }
    }
}

/// One correction against one obstacle. Reports whether the disc overlapped
/// the obstacle; if it did, the disc lands exactly at `pushed_spec`: the
/// obstacle's rim along the line joining the two centers (or the obstacle's
/// own center when the centers coincide), clamped back into bounds.
fn push_from(p: Pos, r: u64, o: Obstacle, b: Bounds) -> (res: (Pos, bool))
    requires
        pos_bounded(p),
        r <= MAX_DISC_RADIUS,
        obstacle_wf(o),
        bounds_wf(b),
    ensures
        res.1 == !clear_of(p, r, o),
        !res.1 ==> res.0 == p,
        res.1 ==> res.0 == pushed_spec(p, r, o, b) && in_bounds(res.0, b),
{
    let rsum = r + o.radius;
    let d2 = dist_squared(p, o.pos);
    proof {
        assert(rsum * rsum <= 0x3D09_0000_0000) by (nonlinear_arith)
            requires
                rsum <= 2 * MAX_DISC_RADIUS,
        ;
    }
    if d2 >= rsum * rsum {
        return (p, false);
    }
    let dist = isqrt(d2);
    let pushed = if dist == 0 {
        o.pos
    } else {
        let dx = abs_diff(p.x, o.pos.x);
        let dy = abs_diff(p.y, o.pos.y);
        proof {
            assert(dx * dx <= d2 && dy * dy <= d2) by (nonlinear_arith)
                requires
                    d2 == dist_sq(p, o.pos),
                    dx == if p.x >= o.pos.x {
                        p.x - o.pos.x
                    } else {
                        o.pos.x - p.x
                    },
                    dy == if p.y >= o.pos.y {
                        p.y - o.pos.y
                    } else {
                        o.pos.y - p.y
                    },
            ;
            assert(dx <= dist && dy <= dist) by (nonlinear_arith)
                requires
                    dx * dx <= d2,
                    dy * dy <= d2,
                    (dist + 1) * (dist + 1) > d2,
            ;
            assert(dx * rsum / (dist as int) <= rsum && dy * rsum / (dist as int) <= rsum)
                by (nonlinear_arith)
                requires
                    dx <= dist,
                    dy <= dist,
                    dist > 0,
            ;
            assert(dx * rsum <= COORD_LIMIT * (2 * MAX_DISC_RADIUS) && dy * rsum <= COORD_LIMIT
                * (2 * MAX_DISC_RADIUS)) by (nonlinear_arith)
                requires
                    dx <= COORD_LIMIT,
                    dy <= COORD_LIMIT,
                    rsum <= 2 * MAX_DISC_RADIUS,
            ;
        }
        let ox = dx * rsum / dist;
        let oy = dy * rsum / dist;
        let nx = if p.x >= o.pos.x {
            o.pos.x + ox
        } else if o.pos.x >= ox {
            o.pos.x - ox
        } else {
            0
        };
        let ny = if p.y >= o.pos.y {
            o.pos.y + oy
        } else if o.pos.y >= oy {
            o.pos.y - oy
        } else {
            0
        };
        Pos { x: nx, y: ny }
    };
    (clamp(pushed, b), true)
}

/// Iterative overlap correction: clamp the proposed position into bounds,
/// then repeatedly push it off every overlapping obstacle, up to
/// `MAX_CORRECTION_PASSES` relaxation passes. The result always lies in
/// bounds; the flag reports convergence, and a converged result is clear of
/// every obstacle. If the cap is reached while still overlapping, the
/// current position is accepted as a deliberate best-effort bound.
#[verifier::loop_isolation(false)]
pub fn correct_position(p0: Pos, r: u64, others: &Vec<Obstacle>, b: Bounds) -> (res: (Pos, bool))
    requires
        pos_bounded(p0),
        r <= MAX_DISC_RADIUS,
        bounds_wf(b),
        forall|j: int| 0 <= j < others@.len() ==> obstacle_wf(#[trigger] others@[j]),
    ensures
        res == relax_spec(clamp_spec(p0, b), r, others@, b, MAX_CORRECTION_PASSES as int),
        in_bounds(res.0, b),
        res.1 ==> forall|j: int| 0 <= j < others@.len() ==> clear_of(res.0, r, #[trigger] others@[j]),
        others@.len() == 0 ==> res.1 && res.0 == clamp_spec(p0, b),
{
    let mut p = clamp(p0, b);
    let ghost p_init = p;
    let mut pass: u32 = 0;
    let mut converged = false;
    while pass < MAX_CORRECTION_PASSES && !converged
        invariant
            in_bounds(p, b),
            pass <= MAX_CORRECTION_PASSES,
            converged ==> forall|j: int|
                0 <= j < others@.len() ==> clear_of(p, r, #[trigger] others@[j]),
            others@.len() == 0 ==> p == clamp_spec(p0, b),
            others@.len() == 0 ==> pass == 0 || converged,
            !converged ==> relax_spec(p_init, r, others@, b, MAX_CORRECTION_PASSES as int)
                == relax_spec(p, r, others@, b, MAX_CORRECTION_PASSES - pass),
            converged ==> (p, true) == relax_spec(p_init, r, others@, b, MAX_CORRECTION_PASSES as int),
        decreases
                MAX_CORRECTION_PASSES - pass + if converged {
                    0int
                } else {
                    1int
                },
    {
        let mut corrected = false;
        let mut j: usize = 0;
        let ghost p_entry = p;
        while j < others.len()
            invariant
                j <= others@.len(),
                in_bounds(p, b),
                corrected ==> others@.len() > 0,
                !corrected ==> p == p_entry,
                !corrected ==> forall|k: int| 0 <= k < j ==> clear_of(p, r, #[trigger] others@[k]),
                (p, corrected) == relax_pass_spec(p_entry, r, others@, b, j as int),
            decreases others@.len() - j,
        {
            let (np, c) = push_from(p, r, others[j], b);
            p = np;
            if c {
                corrected = true;
            }
            j = j + 1;
        }
        if !corrected {
            converged = true;
        } else {
            pass = pass + 1;
        }
    }
    (p, converged)
}

} // verus!
