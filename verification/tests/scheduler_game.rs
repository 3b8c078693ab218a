use merge_discs::body::Body;
use merge_discs::consts::{COORD_LIMIT, LOSS_HEIGHT, MAX_BURST_STEPS};
use merge_discs::cursor::{
    draw_rank, drop_current, move_cursor, refill_current, swap_discs, tick_cooldown,
    track_current, Cursor, CURSOR_DROP_Y,
};
use merge_discs::game::Game;
use merge_discs::geom::Pos;
use merge_discs::scheduler::{
    begin_burst, burst_should_step, disable_sleepers, end_burst, note_step, refresh_settling,
};

fn disc(rank: u32, x: u64, y: u64) -> Body {
    Body {
        rank,
        pos: Pos { x, y },
        angle: 0,
        alive: true,
        dynamic: true,
        enabled: true,
        settling: false,
    }
}

fn game_with(bodies: Vec<Body>) -> Game {
    Game { bodies, score: 0, lost: false, burst_steps: 0 }
}

#[test]
fn score_only_increases_and_resets_on_restart() {
    let mut g = Game::new();
    g.add_score(5);
    assert_eq!(g.score, 5);
    g.add_score(0);
    assert_eq!(g.score, 5);
    g.add_score(120);
    assert_eq!(g.score, 125);
    g.add_score(u64::MAX);
    assert_eq!(g.score, u64::MAX);
    g.restart();
    assert_eq!(g.score, 0);
}

#[test]
fn loss_flag_raised_below_line_and_sticky_until_restart() {
    let mut g = game_with(vec![disc(0, 64000, 200000)]);
    g.check_for_loss();
    assert!(!g.lost);
    g.bodies[0].pos.y = LOSS_HEIGHT - 1;
    g.check_for_loss();
    assert!(g.lost);
    // The flag stays raised even after the body is back above the line.
    g.bodies[0].pos.y = 200000;
    g.check_for_loss();
    assert!(g.lost);
    g.restart();
    assert!(!g.lost);
    assert!(!g.bodies[0].alive);
}

#[test]
fn kinematic_bodies_do_not_trigger_loss() {
    let mut g = game_with(vec![disc(0, 64000, LOSS_HEIGHT - 1)]);
    g.bodies[0].dynamic = false;
    g.check_for_loss();
    assert!(!g.lost);
}

#[test]
fn restart_keeps_kinematic_bodies() {
    let mut g = game_with(vec![disc(0, 64000, 200000), disc(1, 70000, 200000)]);
    g.bodies[0].dynamic = false;
    g.lost = true;
    g.restart();
    assert!(g.bodies[0].alive);
    assert!(!g.bodies[1].alive);
}

#[test]
fn burst_halts_at_the_step_cap() {
    // A chain reaction that never quiets: every step reports all three
    // bodies awake, so the settling set never empties and the burst must
    // stop at exactly the cap.
    let mut g = game_with(vec![
        disc(0, 30000, 200000),
        disc(1, 60000, 200000),
        disc(2, 90000, 200000),
    ]);
    for b in g.bodies.iter_mut() {
        b.settling = true;
    }
    begin_burst(&mut g);
    let mut steps_run = 0u32;
    let awake: Vec<usize> = vec![0, 1, 2];
    while burst_should_step(&g) {
        disable_sleepers(&mut g);
        note_step(&mut g);
        refresh_settling(&mut g, &awake);
        steps_run += 1;
        assert!(steps_run <= 150);
    }
    assert_eq!(steps_run, MAX_BURST_STEPS);
    let reported = end_burst(&mut g);
    assert_eq!(reported, MAX_BURST_STEPS);
    for b in g.bodies.iter() {
        assert!(b.enabled);
    }
}

#[test]
fn burst_ends_when_settling_set_empties() {
    let mut g = game_with(vec![disc(0, 30000, 200000), disc(1, 60000, 200000)]);
    g.bodies[0].settling = true;
    begin_burst(&mut g);
    assert!(burst_should_step(&g));
    disable_sleepers(&mut g);
    assert!(!g.bodies[1].enabled);
    assert!(g.bodies[0].enabled);
    note_step(&mut g);
    refresh_settling(&mut g, &Vec::new());
    assert!(!burst_should_step(&g));
    let steps = end_burst(&mut g);
    assert_eq!(steps, 1);
    assert!(g.bodies[0].enabled && g.bodies[1].enabled);
}

#[test]
fn refresh_settling_keeps_only_valid_awake_bodies() {
    let mut g = game_with(vec![disc(0, 30000, 200000), disc(1, 60000, 200000)]);
    g.bodies[0].settling = true;
    g.bodies[1].alive = false;
    refresh_settling(&mut g, &vec![1, 7]);
    assert!(!g.bodies[0].settling);
    assert!(!g.bodies[1].settling);
    refresh_settling(&mut g, &vec![0]);
    assert!(g.bodies[0].settling);
}

#[test]
fn rank_draws_are_seeded_and_low() {
    let mut s1 = 42u64;
    let mut s2 = 42u64;
    for _ in 0..32 {
        let a = draw_rank(&mut s1);
        let b = draw_rank(&mut s2);
        assert_eq!(a, b);
        assert!(a <= 2);
    }
    assert_eq!(s1, s2);
}

#[test]
fn cursor_moves_and_saturates() {
    let mut c = Cursor { x: 100, current: None, next: 0, cooldown_ms: 0 };
    move_cursor(&mut c, true, 50);
    assert_eq!(c.x, 150);
    move_cursor(&mut c, false, 200);
    assert_eq!(c.x, 0);
    move_cursor(&mut c, true, u64::MAX);
    assert_eq!(c.x, COORD_LIMIT);
}

#[test]
fn held_disc_follows_drops_and_swaps() {
    let mut g = game_with(vec![disc(0, 64000, CURSOR_DROP_Y), disc(2, 100000, CURSOR_DROP_Y)]);
    g.bodies[0].dynamic = false;
    g.bodies[0].enabled = true;
    let mut c = Cursor { x: 50000, current: Some(0), next: 1, cooldown_ms: 0 };
    track_current(&mut g, &c);
    assert_eq!(g.bodies[0].pos.x, 50000);
    assert_eq!(g.bodies[0].pos.y, CURSOR_DROP_Y);

    swap_discs(&mut g, &mut c);
    assert_eq!(c.current, Some(1));
    assert_eq!(c.next, 0);
    assert_eq!(g.bodies[0].pos.x, 100000);
    assert_eq!(g.bodies[1].pos.x, 50000);

    drop_current(&mut g, &mut c);
    assert_eq!(c.current, None);
    assert!(g.bodies[1].dynamic && g.bodies[1].enabled && g.bodies[1].settling);
}

#[test]
fn cursor_controls_are_inert_while_lost() {
    let mut g = game_with(vec![disc(0, 64000, CURSOR_DROP_Y)]);
    g.bodies[0].dynamic = false;
    g.lost = true;
    let mut c = Cursor { x: 12345, current: Some(0), next: 0, cooldown_ms: 0 };
    track_current(&mut g, &c);
    assert_eq!(g.bodies[0].pos.x, 64000);
    drop_current(&mut g, &mut c);
    assert_eq!(c.current, Some(0));
    assert!(!g.bodies[0].dynamic);
}

#[test]
fn cooldown_accumulates_then_fires() {
    let mut c = Cursor { x: 0, current: None, next: 0, cooldown_ms: 0 };
    assert!(!tick_cooldown(&mut c, 400));
    assert_eq!(c.cooldown_ms, 400);
    assert!(!tick_cooldown(&mut c, 400));
    assert!(tick_cooldown(&mut c, 400));
    assert_eq!(c.cooldown_ms, 0);
}

#[test]
fn refill_hands_over_queued_rank_and_redraws_it() {
    let mut g = game_with(vec![disc(2, 110000, CURSOR_DROP_Y)]);
    g.bodies[0].dynamic = false;
    let mut c = Cursor { x: 40000, current: None, next: 0, cooldown_ms: 0 };
    let mut seed = 7u64;
    refill_current(&mut g, &mut c, &mut seed);
    assert_eq!(g.bodies.len(), 2);
    assert_eq!(c.current, Some(1));
    let held = g.bodies[1];
    assert_eq!(held.rank, 2);
    assert_eq!(held.pos, Pos { x: 40000, y: CURSOR_DROP_Y });
    assert!(held.alive && !held.dynamic);
    assert!(g.bodies[0].rank <= 2);
    assert_ne!(seed, 7);
}
