//! End-to-end scenarios: whole frames driven through `step` on a standard
//! 800x600 screen with the ground top at 10 units. Lengths are in
//! milli-units, times in microseconds.

use platformer::world::{
    World, Gravity, Score, GroundData, Player, Enemy, Obstacle, Banner, FrameInput,
};
use platformer::frame::step;

const DT_60: i64 = 16_667;
const DT_30: i64 = 33_333;

fn standard_world() -> World {
    World {
        gravity: Gravity(-500_000),
        score: Score(0),
        displayed_score: 0,
        ground: GroundData { center_y: 0, top_y: 10_000, height: 20_000 },
        half_width: 400_000,
        player: Some(Player { x: 0, y: 25_000, vx: 0, vy: 0, facing: 1 }),
        enemies: Vec::new(),
        obstacles: Vec::new(),
    }
}

fn no_input() -> FrameInput {
    FrameInput { left: false, right: false, a: false, d: false, space_just: false, key2_just: false }
}

#[test]
fn free_fall_comes_to_rest() {
    let mut w = standard_world();
    w.player = Some(Player { x: 0, y: 200_000, vx: 0, vy: 0, facing: 1 });
    for _ in 0..150 {
        step(&mut w, no_input(), DT_60);
    }
    let p = w.player.expect("player must survive a fall");
    assert_eq!(p.y, 25_000);
    assert_eq!(p.vy, 0);
}

#[test]
fn stomp_destroys_enemy_and_scores() {
    let mut w = standard_world();
    w.player = Some(Player { x: 0, y: 60_000, vx: 0, vy: -100_000, facing: 1 });
    w.enemies = vec![Enemy { x: 0, y: 25_000, vx: 0 }];
    let mut frames: i32 = 0;
    while !w.enemies.is_empty() {
        let out = step(&mut w, no_input(), DT_60);
        frames += 1;
        assert!(frames <= 10, "stomp must land within a few frames");
        if w.enemies.is_empty() {
            assert_eq!(out.score_display, Some(100));
        }
    }
    assert_eq!(w.score.0, 100);
    assert!(w.player.is_some());
}

#[test]
fn side_hit_removes_player_and_ends_game() {
    let mut w = standard_world();
    w.player = Some(Player { x: 10_000, y: 25_000, vx: 0, vy: 0, facing: 1 });
    w.enemies = vec![Enemy { x: 30_000, y: 25_000, vx: 0 }];
    let out = step(&mut w, no_input(), DT_60);
    assert!(w.player.is_none());
    assert!(out.side_hit_banner);
    assert_eq!(out.end_banner, Some(Banner::GameOver));
    assert!(out.exit_requested);
    assert_eq!(w.enemies.len(), 1);
}

#[test]
fn enemy_reverses_off_obstacle() {
    let mut w = standard_world();
    w.enemies = vec![Enemy { x: 100_000, y: 25_000, vx: 100_000 }];
    w.obstacles = vec![Obstacle { x: 120_000, y: 30_000 }];
    step(&mut w, no_input(), DT_60);
    assert_eq!(w.enemies[0].vx, -100_000);
}

#[test]
fn horizontal_wrap_at_right_edge() {
    let mut w = standard_world();
    w.player = Some(Player { x: 399_000, y: 25_000, vx: 0, vy: 0, facing: 1 });
    let inp = FrameInput { right: true, ..no_input() };
    step(&mut w, inp, DT_30);
    let p = w.player.unwrap();
    assert_eq!(p.x, -400_000);
    assert!(p.x.abs() <= 400_000);
}

#[test]
fn stomping_last_enemy_wins() {
    let mut w = standard_world();
    w.player = Some(Player { x: 0, y: 60_000, vx: 0, vy: -100_000, facing: 1 });
    w.enemies = vec![Enemy { x: 0, y: 25_000, vx: 0 }];
    let mut won = false;
    for _ in 0..10 {
        let out = step(&mut w, no_input(), DT_60);
        if w.enemies.is_empty() {
            assert_eq!(out.end_banner, Some(Banner::Win));
            assert!(out.exit_requested);
            won = true;
            break;
        }
    }
    assert!(won);
    assert_eq!(w.score.0, 100);
}
