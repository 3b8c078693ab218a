use merge_discs::consts::{
    ANGLE_FULL, BASE_RADIUS, COORD_LIMIT, LOSS_HEIGHT, MAX_DISC_RADIUS, MAX_RANK, RADIUS_STEP,
};
use merge_discs::geom::{angle_midpoint, clamp, dist_squared, isqrt, midpoint, Bounds, Pos};
use merge_discs::overlap::spawn_bounds;
use merge_discs::rank::{next_rank, radius, score};

#[test]
fn next_rank_increments() {
    assert_eq!(next_rank(0), 1);
    assert_eq!(next_rank(7), 8);
}

#[test]
fn radius_exact_values() {
    assert_eq!(radius(0), BASE_RADIUS);
    assert_eq!(radius(1), BASE_RADIUS + RADIUS_STEP);
    assert_eq!(radius(0), 15 * 256);
    assert_eq!(radius(4), 35 * 256);
    assert_eq!(radius(MAX_RANK), MAX_DISC_RADIUS);
}

#[test]
fn score_exact_values() {
    assert_eq!(score(0), 5);
    assert_eq!(score(1), 10);
    assert_eq!(score(2), 20);
    assert_eq!(score(5), 160);
    assert_eq!(score(10), 5 * 1024);
}

#[test]
fn radius_and_score_grow_with_rank() {
    for r in 0..MAX_RANK {
        assert!(radius(next_rank(r)) > radius(r));
        assert!(score(next_rank(r)) > score(r));
    }
}

#[test]
fn isqrt_edges() {
    assert_eq!(isqrt(0), 0);
    assert_eq!(isqrt(1), 1);
    assert_eq!(isqrt(3), 1);
    assert_eq!(isqrt(4), 2);
    assert_eq!(isqrt(15), 3);
    assert_eq!(isqrt(16), 4);
    assert_eq!(isqrt(1 << 60), 1 << 30);
    assert_eq!(isqrt((1 << 60) - 1), (1 << 30) - 1);
}

#[test]
fn dist_squared_exact() {
    let a = Pos { x: 3, y: 10 };
    let b = Pos { x: 7, y: 7 };
    assert_eq!(dist_squared(a, b), 25);
    assert_eq!(dist_squared(b, a), 25);
    assert_eq!(dist_squared(a, a), 0);
}

#[test]
fn midpoint_rounds_down() {
    let a = Pos { x: 1, y: 3 };
    let b = Pos { x: 2, y: 5 };
    let m = midpoint(a, b);
    assert_eq!(m, Pos { x: 1, y: 4 });
}

#[test]
fn clamp_into_bounds() {
    let b = Bounds { x_min: 100, x_max: 200, y_min: 50 };
    assert_eq!(clamp(Pos { x: 10, y: 60 }, b), Pos { x: 100, y: 60 });
    assert_eq!(clamp(Pos { x: 300, y: 10 }, b), Pos { x: 200, y: 50 });
    assert_eq!(clamp(Pos { x: 150, y: 70 }, b), Pos { x: 150, y: 70 });
    assert_eq!(
        clamp(Pos { x: 150, y: u64::MAX }, b),
        Pos { x: 150, y: COORD_LIMIT }
    );
}

#[test]
fn angle_midpoint_plain_and_wrapped() {
    assert_eq!(angle_midpoint(0, 100), 50);
    assert_eq!(angle_midpoint(100, 0), 50);
    assert_eq!(angle_midpoint(40, 40), 40);
    // Interpolation crosses the zero mark along the shorter arc.
    assert_eq!(angle_midpoint(10, ANGLE_FULL - 10), 0);
    assert!(angle_midpoint(1, ANGLE_FULL - 1) < ANGLE_FULL);
}

#[test]
fn spawn_bounds_exact() {
    let b = spawn_bounds(0);
    assert_eq!(b.x_min, 1280 + 3840);
    assert_eq!(b.x_max, 128000 - 1280 - 3840);
    assert_eq!(b.y_min, 193280 + 3840);
    let top = spawn_bounds(MAX_RANK);
    assert!(top.x_min <= top.x_max);
}

#[test]
fn loss_line_below_cup_floor() {
    let b = spawn_bounds(0);
    assert!(LOSS_HEIGHT < b.y_min);
    assert_eq!(LOSS_HEIGHT, 185600);
}
