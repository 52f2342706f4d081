//! The world store: entities, singleton resources, per-frame input and
//! output records, and the well-formedness invariant that every frame
//! preserves.
//!
//! Each executable type has a ghost model over unbounded integers; contracts
//! speak of those models through the view operator `@`.

use vstd::prelude::*;
use crate::tuning::{
    GROUND_HEIGHT, GRAVITY_FORCE, ENEMY_HALF_Y, OBSTACLE_HALF_Y,
    POS_LIMIT, VEL_LIMIT, HALF_WIDTH_LIMIT,
};

verus! {

/// Downward acceleration applied to the player, in milli-units per second squared.
pub struct Gravity(pub i64);

/// The running score.
pub struct Score(pub i64);

/// The ground strip: its center line, its top surface, and its height.
/// The top surface is the anchor for every on-ground entity.
pub struct GroundData {
    pub center_y: i64,
    pub top_y: i64,
    pub height: i64,
}

/// The player: position, velocity, and the sign of its last horizontal
/// direction.
#[derive(Clone, Copy)]
pub struct Player {
    pub x: i64,
    pub y: i64,
    pub vx: i64,
    pub vy: i64,
    pub facing: i64,
}

/// A patrolling enemy. Enemies never move vertically, so they carry only a
/// horizontal velocity.
#[derive(Clone, Copy)]
pub struct Enemy {
    pub x: i64,
    pub y: i64,
    pub vx: i64,
}

/// A static blocker resting on the ground.
#[derive(Clone, Copy)]
pub struct Obstacle {
    pub x: i64,
    pub y: i64,
}

/// An end-of-game banner posted to the HUD.
#[derive(Clone, Copy, PartialEq, Eq, Structural, Debug)]
pub enum Banner {
    Win,
    GameOver,
}

/// The key state of one frame: held direction keys, and the jump keys that
/// went down this frame.
#[derive(Clone, Copy)]
pub struct FrameInput {
    pub left: bool,
    pub right: bool,
    pub a: bool,
    pub d: bool,
    pub space_just: bool,
    pub key2_just: bool,
}

/// What one frame asks of the host: a score text to display, banners to
/// post, and whether to leave the main loop.
pub struct FrameOutput {
    pub score_display: Option<i64>,
    pub side_hit_banner: bool,
    pub end_banner: Option<Banner>,
    pub exit_requested: bool,
}

/// The world: singleton resources plus the three entity containers.
pub struct World {
    pub gravity: Gravity,
    pub score: Score,
    pub displayed_score: i64,
    pub ground: GroundData,
    pub half_width: i64,
    pub player: Option<Player>,
    pub enemies: Vec<Enemy>,
    pub obstacles: Vec<Obstacle>,
}

/// Ghost model of the player.
#[verifier::ext_equal]
pub ghost struct PlayerM {
    pub x: int,
    pub y: int,
    pub vx: int,
    pub vy: int,
    pub facing: int,
}

/// Ghost model of an enemy.
#[verifier::ext_equal]
pub ghost struct EnemyM {
    pub x: int,
    pub y: int,
    pub vx: int,
}

/// Ghost model of an obstacle.
#[verifier::ext_equal]
pub ghost struct ObstacleM {
    pub x: int,
    pub y: int,
}

/// Ghost model of the ground strip.
#[verifier::ext_equal]
pub ghost struct GroundM {
    pub center_y: int,
    pub top_y: int,
    pub height: int,
}

/// Ghost model of the whole world.
#[verifier::ext_equal]
pub ghost struct WorldM {
    pub gravity: int,
    pub score: int,
    pub displayed_score: int,
    pub ground: GroundM,
    pub half_width: int,
    pub player: Option<PlayerM>,
    pub enemies: Seq<EnemyM>,
    pub obstacles: Seq<ObstacleM>,
}

/// Ghost model of a frame's output record.
#[verifier::ext_equal]
pub ghost struct FrameOutM {
    pub score_display: Option<int>,
    pub side_hit_banner: bool,
    pub end_banner: Option<Banner>,
    pub exit_requested: bool,
}

impl View for Player {
    type V = PlayerM;

    open spec fn view(&self) -> PlayerM {
        PlayerM {
            x: self.x as int,
            y: self.y as int,
            vx: self.vx as int,
            vy: self.vy as int,
            facing: self.facing as int,
        }
    }
}

impl View for Enemy {
    type V = EnemyM;

    open spec fn view(&self) -> EnemyM {
        EnemyM { x: self.x as int, y: self.y as int, vx: self.vx as int }
    }
}

impl View for Obstacle {
    type V = ObstacleM;

    open spec fn view(&self) -> ObstacleM {
        ObstacleM { x: self.x as int, y: self.y as int }
    }
}

impl View for GroundData {
    type V = GroundM;

    open spec fn view(&self) -> GroundM {
        GroundM {
            center_y: self.center_y as int,
            top_y: self.top_y as int,
            height: self.height as int,
        }
    }
}

/// The models of a sequence of enemies, in order.
pub open spec fn enemy_views(s: Seq<Enemy>) -> Seq<EnemyM> {
    Seq::new(s.len(), |i: int| s[i]@)
}

/// The models of a sequence of obstacles, in order.
pub open spec fn obstacle_views(s: Seq<Obstacle>) -> Seq<ObstacleM> {
    Seq::new(s.len(), |i: int| s[i]@)
}

impl View for World {
    type V = WorldM;

    open spec fn view(&self) -> WorldM {
        WorldM {
            gravity: self.gravity.0 as int,
            score: self.score.0 as int,
            displayed_score: self.displayed_score as int,
            ground: self.ground@,
            half_width: self.half_width as int,
            player: match self.player {
                Some(p) => Some(p@),
                None => None,
            },
            enemies: enemy_views(self.enemies@),
            obstacles: obstacle_views(self.obstacles@),
        }
    }
}

impl View for FrameOutput {
    type V = FrameOutM;

    open spec fn view(&self) -> FrameOutM {
        FrameOutM {
            score_display: match self.score_display {
                Some(n) => Some(n as int),
                None => None,
            },
            side_hit_banner: self.side_hit_banner,
            end_banner: self.end_banner,
            exit_requested: self.exit_requested,
        }
    }
}

/// The ground's top surface sits half its height above its center line.
pub open spec fn wf_ground(g: GroundM) -> bool {
    &&& g.height == GROUND_HEIGHT
    &&& g.top_y == g.center_y + GROUND_HEIGHT / 2
    &&& -HALF_WIDTH_LIMIT <= g.center_y <= HALF_WIDTH_LIMIT
}

/// The player's facing is a sign and its state is representable.
pub open spec fn wf_player(p: PlayerM) -> bool {
    &&& p.facing == 1 || p.facing == -1
    &&& -POS_LIMIT <= p.x <= POS_LIMIT
    &&& -POS_LIMIT <= p.y <= POS_LIMIT
    &&& -VEL_LIMIT <= p.vx <= VEL_LIMIT
    &&& -VEL_LIMIT <= p.vy <= VEL_LIMIT
}

/// A live enemy rests on the ground and its state is representable.
pub open spec fn wf_enemy(g: GroundM, e: EnemyM) -> bool {
    &&& e.y == g.top_y + ENEMY_HALF_Y
    &&& -POS_LIMIT <= e.x <= POS_LIMIT
    &&& -VEL_LIMIT <= e.vx <= VEL_LIMIT
}

/// An obstacle rests on the ground and stays within the screen's order of size.
pub open spec fn wf_obstacle(g: GroundM, o: ObstacleM) -> bool {
    &&& o.y == g.top_y + OBSTACLE_HALF_Y
    &&& -HALF_WIDTH_LIMIT <= o.x <= HALF_WIDTH_LIMIT
}

/// Well-formedness of the world, preserved by every frame: the ground is
/// coherent, gravity is the tuned constant, the score is a non-negative
/// multiple of 100 with room for every remaining enemy's bounty, and every
/// entity satisfies its own invariant.
pub open spec fn wf_world(w: WorldM) -> bool {
    &&& wf_ground(w.ground)
    &&& w.gravity == GRAVITY_FORCE
    &&& 0 <= w.half_width <= HALF_WIDTH_LIMIT
    &&& 0 <= w.score
    &&& w.score % 100 == 0
    &&& w.score + 100 * w.enemies.len() <= i64::MAX
    &&& match w.player {
        Some(p) => wf_player(p),
        None => true,
    }
    &&& forall|i: int| 0 <= i < w.enemies.len() ==> wf_enemy(w.ground, #[trigger] w.enemies[i])
    &&& forall|i: int| 0 <= i < w.obstacles.len() ==> wf_obstacle(w.ground, #[trigger] w.obstacles[i])
}

} // verus!
