//! Fixed-point plane geometry: positions, squared distances, an integer
//! square root, midpoints, container bounds and angle interpolation.

use vstd::prelude::*;
use crate::consts::{ANGLE_FULL, COORD_LIMIT};

verus! {

/// A point of the plane in fixed-point units. Coordinates are non-negative;
/// the container sits far enough from the origin that everything the
/// simulation can reach is representable.
#[derive(Clone, Copy, PartialEq, Eq, Structural, Debug)]
pub struct Pos {
    pub x: u64,
    pub y: u64,
}

/// The interior a disc of some radius may occupy: an interval for `x` and a
/// lower bound for `y`. There is no ceiling; `COORD_LIMIT` caps `y` only so
/// that coordinates stay representable.
#[derive(Clone, Copy, PartialEq, Eq, Structural, Debug)]
pub struct Bounds {
    pub x_min: u64,
    pub x_max: u64,
    pub y_min: u64,
}

/// Both coordinates are small enough for squared distances to fit `u64`.
pub open spec fn pos_bounded(p: Pos) -> bool {
    p.x <= COORD_LIMIT && p.y <= COORD_LIMIT
}

/// A well-formed bounds description: a non-empty `x` interval inside the
/// representable range.
pub open spec fn bounds_wf(b: Bounds) -> bool {
    b.x_min <= b.x_max <= COORD_LIMIT && b.y_min <= COORD_LIMIT
}

/// `p` lies inside the bounds.
pub open spec fn in_bounds(p: Pos, b: Bounds) -> bool {
    b.x_min <= p.x <= b.x_max && b.y_min <= p.y <= COORD_LIMIT
}

/// Square of the distance between `a` and `b`.
pub open spec fn dist_sq(a: Pos, b: Pos) -> int {
    (a.x - b.x) * (a.x - b.x) + (a.y - b.y) * (a.y - b.y)
}

/// Componentwise midpoint, rounding each coordinate down.
pub open spec fn midpoint_spec(a: Pos, b: Pos) -> Pos {
    Pos { x: ((a.x + b.x) / 2) as u64, y: ((a.y + b.y) / 2) as u64 }
}

/// `p` clamped into the bounds: `x` into its interval, `y` between the floor
/// and the representable ceiling.
pub open spec fn clamp_spec(p: Pos, b: Bounds) -> Pos {
    Pos {
        x: if p.x < b.x_min {
            b.x_min
        } else if p.x > b.x_max {
            b.x_max
        } else {
            p.x
        },
        y: if p.y < b.y_min {
            b.y_min
        } else if p.y > COORD_LIMIT {
            COORD_LIMIT
        } else {
            p.y
        },
    }
}

/// Absolute difference of two coordinates.
pub(crate) fn abs_diff(a: u64, b: u64) -> (d: u64)
    ensures
        d == if a >= b {
            a - b
        } else {
            b - a
        },
{
    if a >= b {
        a - b
    } else {
        b - a
    }
}

/// Square of the distance between `a` and `b`.
pub fn dist_squared(a: Pos, b: Pos) -> (d: u64)
    requires
        pos_bounded(a),
        pos_bounded(b),
    ensures
        d == dist_sq(a, b),
        d <= 0x2000_0000_0000_0000,
{
    let dx = abs_diff(a.x, b.x);
    let dy = abs_diff(a.y, b.y);
    proof {
        assert(dx * dx <= COORD_LIMIT * COORD_LIMIT && dy * dy <= COORD_LIMIT * COORD_LIMIT)
            by (nonlinear_arith)
            requires
                dx <= COORD_LIMIT,
                dy <= COORD_LIMIT,
        ;
        assert(dx * dx == (a.x - b.x) * (a.x - b.x) && dy * dy == (a.y - b.y) * (a.y - b.y))
            by (nonlinear_arith)
            requires
                dx == if a.x >= b.x {
                    a.x - b.x
                } else {
                    b.x - a.x
                },
                dy == if a.y >= b.y {
                    a.y - b.y
                } else {
                    b.y - a.y
                },
        ;
    }
    dx * dx + dy * dy
}

/// Largest integer whose square does not exceed `n`.
pub open spec fn isqrt_spec(n: int) -> int
    decreases n,
{
    if n <= 0 {
        0
    } else {
        let r = isqrt_spec(n - 1);
        if (r + 1) * (r + 1) <= n {
            r + 1
        } else {
            r
        }
    }
}

/// `isqrt_spec(n)` is the non-negative root bracket of `n`: its square is
/// at most `n` and the next square is beyond `n`.
pub proof fn lemma_isqrt_spec_brackets(n: int)
    requires
        n >= 0,
    ensures
        isqrt_spec(n) >= 0,
        isqrt_spec(n) * isqrt_spec(n) <= n,
        (isqrt_spec(n) + 1) * (isqrt_spec(n) + 1) > n,
    decreases n,
{
    if n > 0 {
        lemma_isqrt_spec_brackets(n - 1);
        let r = isqrt_spec(n - 1);
        if (r + 1) * (r + 1) <= n {
            assert((r + 2) * (r + 2) > n) by (nonlinear_arith)
                requires
                    r >= 0,
                    n - 1 < (r + 1) * (r + 1),
            ;
        }
    }
}

/// Any non-negative integer whose square brackets `n` is `isqrt_spec(n)`.
pub proof fn lemma_isqrt_unique(n: int, r: int)
    requires
        n >= 0,
        r >= 0,
        r * r <= n,
        (r + 1) * (r + 1) > n,
    ensures
        r == isqrt_spec(n),
{
    lemma_isqrt_spec_brackets(n);
    let s = isqrt_spec(n);
    assert(r == s) by (nonlinear_arith)
        requires
            r >= 0,
            s >= 0,
            r * r <= n,
            (r + 1) * (r + 1) > n,
            s * s <= n,
            (s + 1) * (s + 1) > n,
    ;
}

/// Largest integer whose square does not exceed `n`.
pub fn isqrt(n: u64) -> (r: u64)
    requires
        n <= 0x4000_0000_0000_0000,
    ensures
        r * r <= n,
        (r + 1) * (r + 1) > n,
        r <= 0x8000_0000,
        r == isqrt_spec(n as int),
{
    if n == 0 {
        proof {
            assert(isqrt_spec(0) == 0);
        }
        return 0;
    }
    let mut lo: u64 = 0;
    let mut hi: u64 = 0x8000_0001;
    proof {
        assert(hi * hi > n) by (nonlinear_arith)
            requires
                hi == 0x8000_0001,
                n <= 0x4000_0000_0000_0000,
        ;
    }
    while lo + 1 < hi
        invariant
            lo < hi <= 0x8000_0001,
            lo * lo <= n,
            hi * hi > n,
        decreases hi - lo,
    {
        let mid = lo + (hi - lo) / 2;
        proof {
            assert(mid * mid <= 0x8000_0001 * 0x8000_0001) by (nonlinear_arith)
                requires
                    mid <= 0x8000_0001,
            ;
        }
        if mid * mid <= n {
            lo = mid;
        } else {
            hi = mid;
        }
    }
    proof {
        lemma_isqrt_unique(n as int, lo as int);
    }
    lo
}

/// Componentwise midpoint, rounding each coordinate down.
pub fn midpoint(a: Pos, b: Pos) -> (m: Pos)
    requires
        pos_bounded(a),
        pos_bounded(b),
    ensures
        m == midpoint_spec(a, b),
        pos_bounded(m),
{
    Pos { x: (a.x + b.x) / 2, y: (a.y + b.y) / 2 }
}

/// `p` clamped into the bounds.
pub fn clamp(p: Pos, b: Bounds) -> (r: Pos)
    requires
        bounds_wf(b),
    ensures
        r == clamp_spec(p, b),
        in_bounds(r, b),
{
    let x = if p.x < b.x_min {
        b.x_min
    } else if p.x > b.x_max {
        b.x_max
    } else {
        p.x
    };
    let y = if p.y < b.y_min {
        b.y_min
    } else if p.y > COORD_LIMIT {
        COORD_LIMIT
    } else {
        p.y
    };
    Pos { x, y }
}

/// Midpoint of the shorter arc between two angles: the 2D counterpart of
/// interpolating two orientations halfway. When the two angles are exactly
/// opposite, the arc through the larger values is taken.
pub open spec fn angle_midpoint_spec(a: u64, b: u64) -> u64 {
    let lo = if a <= b {
        a
    } else {
        b
    };
    let hi = if a <= b {
        b
    } else {
        a
    };
    if hi - lo <= ANGLE_FULL / 2 {
        ((lo + hi) / 2) as u64
    } else {
        ((((lo + hi) + ANGLE_FULL) / 2) % (ANGLE_FULL as int)) as u64
    }
}

/// Midpoint of the shorter arc between two angles.
pub fn angle_midpoint(a: u64, b: u64) -> (m: u64)
    requires
        a < ANGLE_FULL,
        b < ANGLE_FULL,
    ensures
        m == angle_midpoint_spec(a, b),
        m < ANGLE_FULL,
{
    let lo = if a <= b {
        a
    } else {
        b
    };
    let hi = if a <= b {
        b
    } else {
        a
    };
    if hi - lo <= ANGLE_FULL / 2 {
        (lo + hi) / 2
    } else {
        ((lo + hi) + ANGLE_FULL) / 2 % ANGLE_FULL
    }
}

} // verus!
