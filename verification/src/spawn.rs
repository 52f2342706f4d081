//! Startup: building the world, and populating it with a random number of
//! enemies and obstacles. Randomness comes from the host's generator behind
//! trusted wrappers; everything proved here holds for every outcome of the
//! draws.

use vstd::prelude::*;
use rand::Rng;
use crate::tuning::{
    GROUND_HEIGHT, GRAVITY_FORCE, PLAYER_HALF_Y, ENEMY_HALF_Y, OBSTACLE_HALF_Y,
    ENEMY_SPEED_MIN, ENEMY_SPEED_MAX, ENEMY_COUNT_MIN, ENEMY_COUNT_END,
    OBSTACLE_COUNT_MIN, OBSTACLE_COUNT_END, HALF_WIDTH_LIMIT,
};
use crate::world::{
    World, WorldM, EnemyM, ObstacleM, PlayerM, Gravity, Score, GroundData, Player, Enemy,
    Obstacle, wf_world, wf_enemy, wf_obstacle,
};

verus! {

/// Relies on rand's `thread_rng` and `Rng::gen_range` on a half-open `i64`
/// range: a draw from `[lo, hi)`. `gen_range` panics only on an empty range,
/// which the precondition rules out.
#[verifier::external_body]
fn rand_range(lo: i64, hi: i64) -> (r: i64)
    requires
        lo < hi,
    ensures
        lo <= r < hi,
{
    rand::thread_rng().gen_range(lo..hi)
}

/// Relies on rand's `thread_rng` and `Rng::gen` with the `Standard`
/// distribution on `bool`: a coin flip. Either side may come up, so nothing
/// is promised of the result.
#[verifier::external_body]
fn rand_coin() -> (r: bool) {
    rand::thread_rng().gen()
}

/// Builds the initial world for a screen of the given width: the ground
/// strip anchored at center height zero, the player resting on it, score
/// zero, and no enemies or obstacles yet.
pub fn setup(width: i64) -> (w: World)
    requires
        0 <= width <= 2 * HALF_WIDTH_LIMIT,
    ensures
        wf_world(w@),
        w@.half_width == width as int / 2,
        w@.ground.center_y == 0,
        w@.ground.top_y == GROUND_HEIGHT / 2,
        w@.ground.height == GROUND_HEIGHT,
        w@.gravity == GRAVITY_FORCE,
        w@.score == 0,
        w@.displayed_score == 0,
        w@.player == Some(PlayerM {
            x: 0,
            y: GROUND_HEIGHT / 2 + PLAYER_HALF_Y,
            vx: 0,
            vy: 0,
            facing: 1,
        }),
        w@.enemies.len() == 0,
        w@.obstacles.len() == 0,
{
    let half: i64 = ((width as u64) / 2) as i64;
    let top: i64 = ((GROUND_HEIGHT as u64) / 2) as i64;
    let w = World {
        gravity: Gravity(GRAVITY_FORCE),
        score: Score(0),
        displayed_score: 0,
        ground: GroundData { center_y: 0, top_y: top, height: GROUND_HEIGHT },
        half_width: half,
        player: Some(Player { x: 0, y: top + PLAYER_HALF_Y, vx: 0, vy: 0, facing: 1 }),
        enemies: Vec::new(),
        obstacles: Vec::new(),
    };
    w
}

/// What holds of every freshly spawned enemy: on the ground, within the
/// screen, patrolling at a speed in the tuned range in one direction or the
/// other.
pub open spec fn spawned_enemy_ok(w: WorldM, e: EnemyM) -> bool {
    &&& -w.half_width <= e.x < w.half_width
    &&& e.y == w.ground.top_y + ENEMY_HALF_Y
    &&& (ENEMY_SPEED_MIN <= e.vx < ENEMY_SPEED_MAX) || (-ENEMY_SPEED_MAX < e.vx
        <= -ENEMY_SPEED_MIN)
}

/// What holds of every freshly spawned obstacle: on the ground, within the
/// screen.
pub open spec fn spawned_obstacle_ok(w: WorldM, o: ObstacleM) -> bool {
    &&& -w.half_width <= o.x < w.half_width
    &&& o.y == w.ground.top_y + OBSTACLE_HALF_Y
}

/// Spawns between `ENEMY_COUNT_MIN` and `ENEMY_COUNT_END` (exclusive)
/// enemies at random screen positions, each resting on the ground with a
/// random patrol velocity. Every other part of the world is untouched.
pub fn spawn_enemies(w: &mut World)
    requires
        wf_world(old(w)@),
        0 < old(w)@.half_width,
        old(w)@.score + 100 * (old(w)@.enemies.len() + ENEMY_COUNT_END) <= i64::MAX,
    ensures
        wf_world(final(w)@),
        old(w)@.enemies.len() + ENEMY_COUNT_MIN <= final(w)@.enemies.len() < old(
            w,
        )@.enemies.len() + ENEMY_COUNT_END,
        forall|j: int| 0 <= j < old(w)@.enemies.len() ==> #[trigger] final(w)@.enemies[j] == old(
            w,
        )@.enemies[j],
        forall|j: int| old(w)@.enemies.len() <= j < final(w)@.enemies.len()
            ==> spawned_enemy_ok(old(w)@, #[trigger] final(w)@.enemies[j]),
        final(w)@.player == old(w)@.player,
        final(w)@.score == old(w)@.score,
        final(w)@.displayed_score == old(w)@.displayed_score,
        final(w)@.ground == old(w)@.ground,
        final(w)@.half_width == old(w)@.half_width,
        final(w)@.gravity == old(w)@.gravity,
        final(w)@.obstacles == old(w)@.obstacles,
{
    let count: i64 = rand_range(ENEMY_COUNT_MIN, ENEMY_COUNT_END);
    let y: i64 = w.ground.top_y + ENEMY_HALF_Y;
    let half: i64 = w.half_width;
    let mut fresh: Vec<Enemy> = Vec::new();
    let mut s: i64 = 0;
    while s < count
        invariant
            wf_world(old(w)@),
            w@ == old(w)@,
            0 < half,
            half as int == old(w)@.half_width,
            y as int == old(w)@.ground.top_y + ENEMY_HALF_Y,
            ENEMY_COUNT_MIN <= count < ENEMY_COUNT_END,
            0 <= s <= count,
            fresh@.len() == s,
            forall|j: int| 0 <= j < s ==> spawned_enemy_ok(old(w)@, #[trigger] fresh@[j]@),
        decreases count - s,
    {
        let x: i64 = rand_range(-half, half);
        let speed: i64 = rand_range(ENEMY_SPEED_MIN, ENEMY_SPEED_MAX);
        let heads = rand_coin();
        let vx: i64 = if heads {
            speed
        } else {
            -speed
        };
        fresh.push(Enemy { x, y, vx });
        s = s + 1;
    }
    w.enemies.append(&mut fresh);
    proof {
        assert(w@.enemies.len() == old(w)@.enemies.len() + count);
        assert(100 * w@.enemies.len() <= 100 * (old(w)@.enemies.len() + ENEMY_COUNT_END));
        assert forall|j: int| 0 <= j < w@.enemies.len() implies wf_enemy(
            w@.ground,
            #[trigger] w@.enemies[j],
        ) by {
            if j < old(w)@.enemies.len() {
                assert(w@.enemies[j] == old(w)@.enemies[j]);
                assert(wf_enemy(old(w)@.ground, old(w)@.enemies[j]));
            } else {
                assert(spawned_enemy_ok(old(w)@, w@.enemies[j]));
            }
        }
        assert forall|j: int| 0 <= j < w@.obstacles.len() implies wf_obstacle(
            w@.ground,
            #[trigger] w@.obstacles[j],
        ) by {
            assert(w@.obstacles[j] == old(w)@.obstacles[j]);
            assert(wf_obstacle(old(w)@.ground, old(w)@.obstacles[j]));
        }
    }
}

/// Spawns between `OBSTACLE_COUNT_MIN` and `OBSTACLE_COUNT_END` (exclusive)
/// obstacles at random screen positions, each resting on the ground. Every
/// other part of the world is untouched.
pub fn spawn_obstacles(w: &mut World)
    requires
        wf_world(old(w)@),
        0 < old(w)@.half_width,
    ensures
        wf_world(final(w)@),
        old(w)@.obstacles.len() + OBSTACLE_COUNT_MIN <= final(w)@.obstacles.len() < old(
            w,
        )@.obstacles.len() + OBSTACLE_COUNT_END,
        forall|j: int| 0 <= j < old(w)@.obstacles.len() ==> #[trigger] final(w)@.obstacles[j]
            == old(w)@.obstacles[j],
        forall|j: int| old(w)@.obstacles.len() <= j < final(w)@.obstacles.len()
            ==> spawned_obstacle_ok(old(w)@, #[trigger] final(w)@.obstacles[j]),
        final(w)@.player == old(w)@.player,
        final(w)@.score == old(w)@.score,
        final(w)@.displayed_score == old(w)@.displayed_score,
        final(w)@.ground == old(w)@.ground,
        final(w)@.half_width == old(w)@.half_width,
        final(w)@.gravity == old(w)@.gravity,
        final(w)@.enemies == old(w)@.enemies,
{
    let count: i64 = rand_range(OBSTACLE_COUNT_MIN, OBSTACLE_COUNT_END);
    let y: i64 = w.ground.top_y + OBSTACLE_HALF_Y;
    let half: i64 = w.half_width;
    let mut fresh: Vec<Obstacle> = Vec::new();
    let mut s: i64 = 0;
    while s < count
        invariant
            wf_world(old(w)@),
            w@ == old(w)@,
            0 < half,
            half as int == old(w)@.half_width,
            y as int == old(w)@.ground.top_y + OBSTACLE_HALF_Y,
            OBSTACLE_COUNT_MIN <= count < OBSTACLE_COUNT_END,
            0 <= s <= count,
            fresh@.len() == s,
            forall|j: int| 0 <= j < s ==> spawned_obstacle_ok(old(w)@, #[trigger] fresh@[j]@),
        decreases count - s,
    {
        let x: i64 = rand_range(-half, half);
        fresh.push(Obstacle { x, y });
        s = s + 1;
    }
    w.obstacles.append(&mut fresh);
    proof {
        assert forall|j: int| 0 <= j < w@.obstacles.len() implies wf_obstacle(
            w@.ground,
            #[trigger] w@.obstacles[j],
        ) by {
            if j < old(w)@.obstacles.len() {
                assert(w@.obstacles[j] == old(w)@.obstacles[j]);
                assert(wf_obstacle(old(w)@.ground, old(w)@.obstacles[j]));
            } else {
                assert(spawned_obstacle_ok(old(w)@, w@.obstacles[j]));
            }
        }
        assert forall|j: int| 0 <= j < w@.enemies.len() implies wf_enemy(
            w@.ground,
            #[trigger] w@.enemies[j],
        ) by {
            assert(w@.enemies[j] == old(w)@.enemies[j]);
            assert(wf_enemy(old(w)@.ground, old(w)@.enemies[j]));
        }
    }
}

} // verus!
