//! Startup tests: the initial world and the randomized populations. The
//! draws are random, so each run checks the guaranteed ranges.

use platformer::spawn::{setup, spawn_enemies, spawn_obstacles};

#[test]
fn setup_builds_resting_world() {
    let w = setup(800_000);
    assert_eq!(w.half_width, 400_000);
    assert_eq!(w.ground.center_y, 0);
    assert_eq!(w.ground.top_y, 10_000);
    assert_eq!(w.ground.height, 20_000);
    assert_eq!(w.gravity.0, -500_000);
    assert_eq!(w.score.0, 0);
    let p = w.player.unwrap();
    assert_eq!((p.x, p.y, p.vx, p.vy, p.facing), (0, 25_000, 0, 0, 1));
    assert!(w.enemies.is_empty());
    assert!(w.obstacles.is_empty());
}

#[test]
fn spawned_enemies_rest_on_ground_and_patrol() {
    let mut w = setup(800_000);
    spawn_enemies(&mut w);
    assert!(w.enemies.len() >= 2 && w.enemies.len() < 5);
    for e in &w.enemies {
        assert!(-400_000 <= e.x && e.x < 400_000);
        assert_eq!(e.y, 25_000);
        let speed: i64 = e.vx.abs();
        assert!(50_000 <= speed && speed < 150_000);
        assert_ne!(e.vx, 0);
    }
}

#[test]
fn spawned_obstacles_rest_on_ground() {
    let mut w = setup(800_000);
    spawn_obstacles(&mut w);
    assert!(w.obstacles.len() >= 3 && w.obstacles.len() < 7);
    for o in &w.obstacles {
        assert!(-400_000 <= o.x && o.x < 400_000);
        assert_eq!(o.y, 30_000);
    }
}

#[test]
fn spawns_vary_between_runs() {
    // Two hundred draws of enemy velocities cannot all share one value
    // unless the generator is broken.
    let mut seen_different = false;
    let mut first: Option<i64> = None;
    for _ in 0..100 {
        let mut w = setup(800_000);
        spawn_enemies(&mut w);
        for e in &w.enemies {
            match first {
                None => first = Some(e.vx),
                Some(v) => {
                    if v != e.vx {
                        seen_different = true;
                    }
                }
            }
        }
    }
    assert!(seen_different);
}
