//! Stage-level tests: each pipeline stage on concrete values, the
//! idempotence properties, and exact fixed-point arithmetic results.

use platformer::world::{
    World, Gravity, Score, GroundData, Player, Enemy, Obstacle, Banner, FrameInput,
};
use platformer::input::player_input_system;
use platformer::kinematics::{apply_gravity_system, movement_system};
use platformer::wrap::{player_wrap_system, enemy_wrap_system};
use platformer::collision::{
    collision_system, enemy_obstacle_collision_system, enemy_collision_system,
    obstacle_collision_system,
};
use platformer::hud::{update_score_system, check_end_game_system};
use platformer::geom::is_colliding;
use platformer::frame::step;

const DT_60: i64 = 16_667;

fn base_world() -> World {
    World {
        gravity: Gravity(-500_000),
        score: Score(0),
        displayed_score: 0,
        ground: GroundData { center_y: 0, top_y: 10_000, height: 20_000 },
        half_width: 400_000,
        player: Some(Player { x: 0, y: 25_000, vx: 0, vy: 0, facing: 1 }),
        enemies: Vec::new(),
        obstacles: Vec::new(),
    }
}

fn no_input() -> FrameInput {
    FrameInput { left: false, right: false, a: false, d: false, space_just: false, key2_just: false }
}

#[test]
fn wrap_twice_equals_wrap_once() {
    let mut w = base_world();
    w.player = Some(Player { x: 500_000, y: 25_000, vx: 0, vy: 0, facing: 1 });
    w.enemies = vec![Enemy { x: -512_345, y: 25_000, vx: 70_000 }];
    player_wrap_system(&mut w);
    enemy_wrap_system(&mut w);
    let px: i64 = w.player.unwrap().x;
    let ex: i64 = w.enemies[0].x;
    assert_eq!(px, -400_000);
    assert_eq!(ex, 400_000);
    player_wrap_system(&mut w);
    enemy_wrap_system(&mut w);
    assert_eq!(w.player.unwrap().x, px);
    assert_eq!(w.enemies[0].x, ex);
}

#[test]
fn ground_clamp_is_idempotent() {
    let mut w = base_world();
    w.player = Some(Player { x: 0, y: 5_000, vx: 0, vy: -50_000, facing: 1 });
    collision_system(&mut w);
    let p1 = w.player.unwrap();
    assert_eq!(p1.y, 25_000);
    assert_eq!(p1.vy, 0);
    collision_system(&mut w);
    let p2 = w.player.unwrap();
    assert_eq!(p2.y, p1.y);
    assert_eq!(p2.vy, p1.vy);
    assert_eq!(p2.x, p1.x);
}

#[test]
fn score_is_nondecreasing_multiple_of_hundred() {
    let mut w = base_world();
    w.player = Some(Player { x: 0, y: 60_000, vx: 0, vy: -100_000, facing: 1 });
    w.enemies = vec![Enemy { x: 0, y: 25_000, vx: 0 }, Enemy { x: 200_000, y: 25_000, vx: 0 }];
    let mut last: i64 = w.score.0;
    for _ in 0..10 {
        step(&mut w, no_input(), DT_60);
        assert!(w.score.0 >= last);
        assert_eq!(w.score.0 % 100, 0);
        last = w.score.0;
    }
    assert_eq!(w.score.0, 100);
}

#[test]
fn overlap_is_strict() {
    // Boxes exactly flush do not overlap; one milli-unit closer they do.
    assert!(!is_colliding(0, 0, 15_000, 15_000, 30_000, 0, 15_000, 15_000));
    assert!(is_colliding(0, 0, 15_000, 15_000, 29_999, 0, 15_000, 15_000));
    assert!(!is_colliding(0, 0, 15_000, 15_000, 0, 40_000, 15_000, 15_000));
    assert!(is_colliding(0, 0, 15_000, 15_000, 0, 29_999, 15_000, 15_000));
}

#[test]
fn input_sets_velocity_and_facing() {
    let mut w = base_world();
    player_input_system(&mut w, FrameInput { right: true, ..no_input() });
    let p = w.player.unwrap();
    assert_eq!(p.vx, 200_000);
    assert_eq!(p.facing, 1);
    player_input_system(&mut w, FrameInput { a: true, ..no_input() });
    let p = w.player.unwrap();
    assert_eq!(p.vx, -200_000);
    assert_eq!(p.facing, -1);
    player_input_system(&mut w, FrameInput { left: true, d: true, ..no_input() });
    let p = w.player.unwrap();
    assert_eq!(p.vx, 0);
    assert_eq!(p.facing, -1);
}

#[test]
fn jump_only_from_the_ground() {
    let mut w = base_world();
    player_input_system(&mut w, FrameInput { space_just: true, ..no_input() });
    assert_eq!(w.player.unwrap().vy, 300_000);
    let mut airborne = base_world();
    airborne.player = Some(Player { x: 0, y: 80_000, vx: 0, vy: 0, facing: 1 });
    player_input_system(&mut airborne, FrameInput { key2_just: true, ..no_input() });
    assert_eq!(airborne.player.unwrap().vy, 0);
}

#[test]
fn gravity_and_integration_exact() {
    let mut w = base_world();
    w.player = Some(Player { x: 0, y: 100_000, vx: 200_000, vy: 0, facing: 1 });
    apply_gravity_system(&mut w, DT_60);
    // -500_000 * 16_667 / 1_000_000 truncated toward zero.
    assert_eq!(w.player.unwrap().vy, -8_333);
    movement_system(&mut w, DT_60);
    let p = w.player.unwrap();
    // 200_000 * 16_667 / 1_000_000 = 3_333.4, truncated.
    assert_eq!(p.x, 3_333);
    assert_eq!(p.y, 100_000 - 138);
}

#[test]
fn player_pushed_out_of_obstacle() {
    let mut w = base_world();
    w.player = Some(Player { x: 110_000, y: 25_000, vx: 150_000, vy: 0, facing: 1 });
    w.obstacles = vec![Obstacle { x: 120_000, y: 30_000 }];
    obstacle_collision_system(&mut w);
    let p = w.player.unwrap();
    assert_eq!(p.x, 85_000);
    assert_eq!(p.vx, 0);
    assert_eq!(p.y, 25_000);
    assert!(!is_colliding(p.x, p.y, 15_000, 15_000, 120_000, 30_000, 20_000, 20_000));
}

#[test]
fn clear_enemy_keeps_velocity_through_frame() {
    let mut w = base_world();
    w.enemies = vec![Enemy { x: 0, y: 25_000, vx: 60_000 }];
    w.obstacles = vec![Obstacle { x: 300_000, y: 30_000 }];
    step(&mut w, no_input(), DT_60);
    assert_eq!(w.enemies[0].vx, 60_000);
}

#[test]
fn enemy_between_two_obstacles_reverses_twice() {
    // Two overlaps in one stage are two reversals: the velocity is unchanged.
    let mut w = base_world();
    w.enemies = vec![Enemy { x: 100_000, y: 25_000, vx: 80_000 }];
    w.obstacles = vec![
        Obstacle { x: 90_000, y: 30_000 },
        Obstacle { x: 110_000, y: 30_000 },
    ];
    enemy_obstacle_collision_system(&mut w);
    assert_eq!(w.enemies[0].vx, 80_000);
}

#[test]
fn stomp_window_tie_resolves_as_stomp() {
    // The player's bottom exactly at the enemy's top minus the tolerance.
    let mut w = base_world();
    w.player = Some(Player { x: 0, y: 50_000, vx: 0, vy: 0, facing: 1 });
    w.enemies = vec![Enemy { x: 0, y: 25_000, vx: 0 }];
    // bottom = 35_000, enemy top - tolerance = 40_000 - 5_000 = 35_000.
    let side_hit = enemy_collision_system(&mut w);
    assert!(!side_hit);
    assert!(w.enemies.is_empty());
    assert_eq!(w.score.0, 100);
    assert!(w.player.is_some());
}

#[test]
fn score_text_only_on_change() {
    let mut w = base_world();
    w.score = Score(300);
    let first = update_score_system(&mut w);
    assert_eq!(first, Some(300));
    let second = update_score_system(&mut w);
    assert_eq!(second, None);
}

#[test]
fn end_check_cases() {
    let win = base_world();
    let r = check_end_game_system(&win);
    assert_eq!(r.0, Some(Banner::Win));
    assert!(r.1);

    let mut lost = base_world();
    lost.player = None;
    lost.enemies = vec![Enemy { x: 0, y: 25_000, vx: 0 }];
    let r = check_end_game_system(&lost);
    assert_eq!(r.0, Some(Banner::GameOver));
    assert!(r.1);

    let mut running = base_world();
    running.enemies = vec![Enemy { x: 0, y: 25_000, vx: 0 }];
    let r = check_end_game_system(&running);
    assert_eq!(r.0, None);
    assert!(!r.1);
}

#[test]
fn degenerate_delta_still_resolves_collisions() {
    // A zero delta moves nothing, but the collision stages still run.
    let mut w = base_world();
    w.enemies = vec![Enemy { x: 100_000, y: 25_000, vx: 80_000 }];
    w.obstacles = vec![Obstacle { x: 110_000, y: 30_000 }];
    step(&mut w, no_input(), 0);
    assert_eq!(w.enemies[0].x, 100_000);
    assert_eq!(w.enemies[0].vx, -80_000);
    let p = w.player.unwrap();
    assert_eq!(p.y, 25_000);
    assert_eq!(p.vy, 0);
}
