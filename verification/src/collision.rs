//! Collision resolution, in the fixed frame order: player-ground clamp,
//! enemy-obstacle reversal, player-enemy stomp-or-fatal, player-obstacle
//! positional correction.

use vstd::prelude::*;
use crate::tuning::{
    PLAYER_HALF_X, PLAYER_HALF_Y, ENEMY_HALF_X, ENEMY_HALF_Y,
    OBSTACLE_HALF_X, OBSTACLE_HALF_Y, STOMP_TOLERANCE, STOMP_SCORE,
    POS_LIMIT, VEL_LIMIT,
};
use crate::geom::{boxes_overlap, is_colliding};
use crate::world::{
    World, WorldM, PlayerM, EnemyM, ObstacleM, GroundM, Enemy,
    enemy_views, wf_world, wf_enemy, wf_obstacle,
};

verus! {

// ---------------------------------------------------------------------------
// Player-ground clamp
// ---------------------------------------------------------------------------

/// The player after the ground clamp: a player sunk below the ground's top is
/// snapped onto it and loses any downward velocity.
pub open spec fn clamp_player(top: int, p: PlayerM) -> PlayerM {
    if p.y - PLAYER_HALF_Y < top {
        PlayerM { y: top + PLAYER_HALF_Y, vy: if p.vy < 0 { 0 } else { p.vy }, ..p }
    } else {
        p
    }
}

/// The world after the ground-clamp stage.
pub open spec fn ground_clamp_stage(w: WorldM) -> WorldM {
    match w.player {
        Some(p) => WorldM { player: Some(clamp_player(w.ground.top_y, p)), ..w },
        None => w,
    }
}

/// Keeps the player on the ground: snaps a sunken player to resting height
/// and zeroes a downward velocity.
pub fn collision_system(w: &mut World)
    requires
        wf_world(old(w)@),
    ensures
        final(w)@ == ground_clamp_stage(old(w)@),
        wf_world(final(w)@),
        final(w)@.player matches Some(p) ==> p.y >= final(w)@.ground.top_y + PLAYER_HALF_Y,
{
    match w.player {
        Some(p) => {
            let mut np = p;
            if p.y - PLAYER_HALF_Y < w.ground.top_y {
                np.y = w.ground.top_y + PLAYER_HALF_Y;
                if np.vy < 0 {
                    np.vy = 0;
                }
            }
            w.player = Some(np);
            proof {
                assert(np@ == clamp_player(old(w)@.ground.top_y, p@));
                assert(w@ =~= ground_clamp_stage(old(w)@));
            }
        }
        None => {
            proof {
                assert(w@ =~= ground_clamp_stage(old(w)@));
            }
        }
    }
}

/// The ground clamp is idempotent: applying it a second time changes nothing.
pub proof fn lemma_ground_clamp_idempotent(top: int, p: PlayerM)
    ensures
        clamp_player(top, clamp_player(top, p)) == clamp_player(top, p),
{
}

/// The whole ground-clamp stage is idempotent.
pub proof fn lemma_ground_clamp_stage_idempotent(w: WorldM)
    ensures
        ground_clamp_stage(ground_clamp_stage(w)) == ground_clamp_stage(w),
{
    match w.player {
        Some(p) => {
            lemma_ground_clamp_idempotent(w.ground.top_y, p);
            assert(ground_clamp_stage(ground_clamp_stage(w)) =~= ground_clamp_stage(w));
        }
        None => {}
    }
}

// ---------------------------------------------------------------------------
// Enemy-obstacle reversal
// ---------------------------------------------------------------------------

/// An enemy overlaps an obstacle.
pub open spec fn enemy_hits_obstacle(e: EnemyM, o: ObstacleM) -> bool {
    boxes_overlap(
        e.x, e.y, ENEMY_HALF_X as int, ENEMY_HALF_Y as int,
        o.x, o.y, OBSTACLE_HALF_X as int, OBSTACLE_HALF_Y as int,
    )
}

/// The horizontal velocity an enemy is left with after checking every
/// obstacle in order: each overlap reverses it once more.
pub open spec fn reversed_vx(e: EnemyM, obs: Seq<ObstacleM>) -> int
    decreases obs.len(),
{
    if obs.len() == 0 {
        e.vx
    } else {
        let r: int = reversed_vx(e, obs.drop_last());
        if enemy_hits_obstacle(e, obs.last()) {
            -r
        } else {
            r
        }
    }
}

/// The world after the enemy-obstacle stage; only enemy velocities change.
pub open spec fn enemy_obstacle_stage(w: WorldM) -> WorldM {
    WorldM {
        enemies: Seq::new(
            w.enemies.len(),
            |i: int| EnemyM { vx: reversed_vx(w.enemies[i], w.obstacles), ..w.enemies[i] },
        ),
        ..w
    }
}

/// The reversal stage keeps each enemy's speed; only the sign can change.
pub proof fn lemma_reversed_vx_magnitude(e: EnemyM, obs: Seq<ObstacleM>)
    ensures
        reversed_vx(e, obs) == e.vx || reversed_vx(e, obs) == -e.vx,
    decreases obs.len(),
{
    if obs.len() > 0 {
        lemma_reversed_vx_magnitude(e, obs.drop_last());
    }
}

/// An enemy that overlaps no obstacle keeps its horizontal velocity — and
/// with it, its direction — through the reversal stage.
pub proof fn lemma_clear_enemy_keeps_vx(e: EnemyM, obs: Seq<ObstacleM>)
    requires
        forall|i: int| 0 <= i < obs.len() ==> !enemy_hits_obstacle(e, #[trigger] obs[i]),
    ensures
        reversed_vx(e, obs) == e.vx,
    decreases obs.len(),
{
    if obs.len() > 0 {
        assert(forall|i: int| 0 <= i < obs.len() - 1 ==> obs.drop_last()[i] == obs[i]);
        lemma_clear_enemy_keeps_vx(e, obs.drop_last());
        assert(obs.last() == obs[obs.len() - 1]);
    }
}

/// Reverses the horizontal velocity of each enemy once for every obstacle it
/// overlaps.
pub fn enemy_obstacle_collision_system(w: &mut World)
    requires
        wf_world(old(w)@),
    ensures
        final(w)@ == enemy_obstacle_stage(old(w)@),
        wf_world(final(w)@),
{
    let n: usize = w.enemies.len();
    let m: usize = w.obstacles.len();
    let mut out: Vec<Enemy> = Vec::new();
    let mut i: usize = 0;
    while i < n
        invariant
            wf_world(old(w)@),
            w@ == old(w)@,
            n == w.enemies.len(),
            m == w.obstacles.len(),
            i <= n,
            out@.len() == i,
            forall|j: int| 0 <= j < i ==> out@[j]@ == (EnemyM {
                vx: reversed_vx(old(w)@.enemies[j], old(w)@.obstacles),
                ..old(w)@.enemies[j]
            }),
        decreases n - i,
    {
        let e = w.enemies[i];
        proof {
            assert(e@ == old(w)@.enemies[i as int]);
            assert(wf_enemy(old(w)@.ground, old(w)@.enemies[i as int]));
        }
        let mut vx: i64 = e.vx;
        let mut k: usize = 0;
        while k < m
            invariant
                wf_world(old(w)@),
                w@ == old(w)@,
                n == w.enemies.len(),
                m == w.obstacles.len(),
                i < n,
                e@ == old(w)@.enemies[i as int],
                k <= m,
                vx as int == reversed_vx(e@, old(w)@.obstacles.take(k as int)),
                vx == e.vx || vx as int == -(e.vx as int),
            decreases m - k,
        {
            let o = w.obstacles[k];
            proof {
                assert(o@ == old(w)@.obstacles[k as int]);
                assert(wf_obstacle(old(w)@.ground, old(w)@.obstacles[k as int]));
                assert(old(w)@.obstacles.take(k + 1).drop_last() =~= old(w)@.obstacles.take(
                    k as int,
                ));
                assert(old(w)@.obstacles.take(k + 1).last() == old(w)@.obstacles[k as int]);
            }
            if is_colliding(
                e.x, e.y, ENEMY_HALF_X, ENEMY_HALF_Y,
                o.x, o.y, OBSTACLE_HALF_X, OBSTACLE_HALF_Y,
            ) {
                vx = -vx;
            }
            k = k + 1;
        }
        proof {
            assert(old(w)@.obstacles.take(m as int) =~= old(w)@.obstacles);
        }
        let mut ne = e;
        ne.vx = vx;
        out.push(ne);
        i = i + 1;
    }
    w.enemies = out;
    proof {
        assert(w@.enemies =~= enemy_obstacle_stage(old(w)@).enemies);
        assert(w@ =~= enemy_obstacle_stage(old(w)@));
        assert forall|j: int| 0 <= j < w@.enemies.len() implies wf_enemy(
            w@.ground,
            #[trigger] w@.enemies[j],
        ) by {
            assert(wf_enemy(old(w)@.ground, old(w)@.enemies[j]));
            lemma_reversed_vx_magnitude(old(w)@.enemies[j], old(w)@.obstacles);
        }
    }
}

// ---------------------------------------------------------------------------
// Player-enemy: stomp or fatal side contact
// ---------------------------------------------------------------------------

/// The player overlaps an enemy.
pub open spec fn player_hits_enemy(p: PlayerM, e: EnemyM) -> bool {
    boxes_overlap(
        p.x, p.y, PLAYER_HALF_X as int, PLAYER_HALF_Y as int,
        e.x, e.y, ENEMY_HALF_X as int, ENEMY_HALF_Y as int,
    )
}

/// A contact counts as a stomp when the player's bottom is at or above the
/// enemy's top, within the stomp tolerance. Ties resolve as stomps.
pub open spec fn stomps(p: PlayerM, e: EnemyM) -> bool {
    p.y - PLAYER_HALF_Y >= e.y + ENEMY_HALF_Y - STOMP_TOLERANCE
}

/// Outcome of the player-enemy stage: the enemies left alive, the score
/// gained, and whether any contact was a fatal side hit.
#[verifier::ext_equal]
pub ghost struct StompOutcome {
    pub survivors: Seq<EnemyM>,
    pub gained: int,
    pub side_hit: bool,
}

/// Folds the stomp-or-fatal rule over the enemies in order: a stomped enemy
/// is removed and worth `STOMP_SCORE`; a side contact keeps the enemy and
/// marks the player for destruction.
pub open spec fn stomp_outcome(p: PlayerM, enemies: Seq<EnemyM>) -> StompOutcome
    decreases enemies.len(),
{
    if enemies.len() == 0 {
        StompOutcome { survivors: Seq::empty(), gained: 0, side_hit: false }
    } else {
        let rest = stomp_outcome(p, enemies.drop_last());
        let e = enemies.last();
        if player_hits_enemy(p, e) {
            if stomps(p, e) {
                StompOutcome {
                    survivors: rest.survivors,
                    gained: rest.gained + STOMP_SCORE,
                    side_hit: rest.side_hit,
                }
            } else {
                StompOutcome {
                    survivors: rest.survivors.push(e),
                    gained: rest.gained,
                    side_hit: true,
                }
            }
        } else {
            StompOutcome {
                survivors: rest.survivors.push(e),
                gained: rest.gained,
                side_hit: rest.side_hit,
            }
        }
    }
}

/// Whether the player-enemy stage of this world ends in a fatal side hit.
pub open spec fn player_enemy_side_hit(w: WorldM) -> bool {
    match w.player {
        Some(p) => stomp_outcome(p, w.enemies).side_hit,
        None => false,
    }
}

/// The world after the player-enemy stage: stomped enemies are gone, their
/// bounty is added to the score, and a side hit destroys the player.
pub open spec fn player_enemy_stage(w: WorldM) -> WorldM {
    match w.player {
        Some(p) => {
            let o = stomp_outcome(p, w.enemies);
            WorldM {
                player: if o.side_hit { None } else { w.player },
                enemies: o.survivors,
                score: w.score + o.gained,
                ..w
            }
        }
        None => w,
    }
}

/// Bookkeeping of the stomp fold: the gain is exactly `STOMP_SCORE` per
/// removed enemy, survivors keep their records, and well-formedness carries
/// over to the survivors.
pub proof fn lemma_stomp_outcome_counts(g: GroundM, p: PlayerM, enemies: Seq<EnemyM>)
    ensures
        stomp_outcome(p, enemies).survivors.len() <= enemies.len(),
        stomp_outcome(p, enemies).gained == STOMP_SCORE * (enemies.len()
            - stomp_outcome(p, enemies).survivors.len()),
        forall|j: int| 0 <= j < stomp_outcome(p, enemies).survivors.len() ==> exists|i: int|
            0 <= i < enemies.len() && #[trigger] stomp_outcome(p, enemies).survivors[j]
                == enemies[i],
        (forall|i: int| 0 <= i < enemies.len() ==> wf_enemy(g, #[trigger] enemies[i]))
            ==> (forall|j: int| 0 <= j < stomp_outcome(p, enemies).survivors.len()
                ==> wf_enemy(g, #[trigger] stomp_outcome(p, enemies).survivors[j])),
    decreases enemies.len(),
{
    if enemies.len() > 0 {
        lemma_stomp_outcome_counts(g, p, enemies.drop_last());
        assert(forall|i: int| 0 <= i < enemies.len() - 1 ==> enemies.drop_last()[i]
            == enemies[i]);
        assert(enemies.last() == enemies[enemies.len() - 1]);
        let rest = stomp_outcome(p, enemies.drop_last());
        let o = stomp_outcome(p, enemies);
        assert forall|j: int| 0 <= j < o.survivors.len() implies exists|i: int|
            0 <= i < enemies.len() && #[trigger] o.survivors[j] == enemies[i] by {
            if j < rest.survivors.len() {
                assert(o.survivors[j] == rest.survivors[j]);
                let i: int = choose|i: int|
                    0 <= i < enemies.drop_last().len() && rest.survivors[j]
                        == enemies.drop_last()[i];
                assert(0 <= i < enemies.len() && o.survivors[j] == enemies[i]);
            } else {
                assert(o.survivors[j] == enemies[enemies.len() - 1]);
            }
        }
    }
}

/// An enemy the player does not touch survives the player-enemy stage with
/// its record unchanged.
pub proof fn lemma_stomp_keeps_clear_enemies(p: PlayerM, enemies: Seq<EnemyM>, i: int)
    requires
        0 <= i < enemies.len(),
        !player_hits_enemy(p, enemies[i]),
    ensures
        exists|j: int| 0 <= j < stomp_outcome(p, enemies).survivors.len()
            && #[trigger] stomp_outcome(p, enemies).survivors[j] == enemies[i],
    decreases enemies.len(),
{
    let o = stomp_outcome(p, enemies);
    let rest = stomp_outcome(p, enemies.drop_last());
    assert(enemies.last() == enemies[enemies.len() - 1]);
    if i == enemies.len() - 1 {
        assert(o.survivors == rest.survivors.push(enemies[i]));
        assert(o.survivors[o.survivors.len() - 1] == enemies[i]);
    } else {
        assert(enemies.drop_last()[i] == enemies[i]);
        lemma_stomp_keeps_clear_enemies(p, enemies.drop_last(), i);
        let j: int = choose|j: int|
            0 <= j < rest.survivors.len() && #[trigger] rest.survivors[j]
                == enemies.drop_last()[i];
        assert(o.survivors[j] == enemies[i]);
    }
}

/// Resolves player-enemy contacts: stomped enemies are despawned and pay
/// their bounty; any side contact destroys the player. Returns whether a
/// fatal side hit happened, so that the host can post its banner.
pub fn enemy_collision_system(w: &mut World) -> (side_hit: bool)
    requires
        wf_world(old(w)@),
    ensures
        final(w)@ == player_enemy_stage(old(w)@),
        side_hit == player_enemy_side_hit(old(w)@),
        wf_world(final(w)@),
        old(w)@.score <= final(w)@.score,
{
    let p = match w.player {
        Some(p) => p,
        None => {
            proof {
                assert(w@ =~= player_enemy_stage(old(w)@));
            }
            return false;
        }
    };
    let n: usize = w.enemies.len();
    let mut survivors: Vec<Enemy> = Vec::new();
    let mut gained: i64 = 0;
    let mut hit: bool = false;
    let mut i: usize = 0;
    proof {
        assert(100 * old(w)@.enemies.len() <= i64::MAX - old(w)@.score);
    }
    while i < n
        invariant
            wf_world(old(w)@),
            w@ == old(w)@,
            old(w)@.player == Some(p@),
            n == w.enemies.len(),
            i <= n,
            enemy_views(survivors@) == stomp_outcome(p@, old(w)@.enemies.take(i as int)).survivors,
            gained as int == stomp_outcome(p@, old(w)@.enemies.take(i as int)).gained,
            hit == stomp_outcome(p@, old(w)@.enemies.take(i as int)).side_hit,
            0 <= gained as int <= 100 * i,
        decreases n - i,
    {
        let e = w.enemies[i];
        proof {
            assert(e@ == old(w)@.enemies[i as int]);
            assert(wf_enemy(old(w)@.ground, old(w)@.enemies[i as int]));
            assert(old(w)@.enemies.take(i + 1).drop_last() =~= old(w)@.enemies.take(i as int));
            assert(old(w)@.enemies.take(i + 1).last() == old(w)@.enemies[i as int]);
            assert(100 * (i + 1) <= 100 * old(w)@.enemies.len());
        }
        if is_colliding(
            p.x, p.y, PLAYER_HALF_X, PLAYER_HALF_Y,
            e.x, e.y, ENEMY_HALF_X, ENEMY_HALF_Y,
        ) {
            if p.y - PLAYER_HALF_Y >= e.y + ENEMY_HALF_Y - STOMP_TOLERANCE {
                gained = gained + STOMP_SCORE;
            } else {
                hit = true;
                survivors.push(e);
                proof {
                    assert(enemy_views(survivors@) =~= stomp_outcome(
                        p@,
                        old(w)@.enemies.take(i + 1),
                    ).survivors);
                }
            }
        } else {
            survivors.push(e);
            proof {
                assert(enemy_views(survivors@) =~= stomp_outcome(
                    p@,
                    old(w)@.enemies.take(i + 1),
                ).survivors);
            }
        }
        i = i + 1;
    }
    proof {
        assert(old(w)@.enemies.take(n as int) =~= old(w)@.enemies);
        lemma_stomp_outcome_counts(old(w)@.ground, p@, old(w)@.enemies);
    }
    w.enemies = survivors;
    w.score.0 = w.score.0 + gained;
    if hit {
        w.player = None;
    }
    proof {
        assert(w@ =~= player_enemy_stage(old(w)@));
    }
    hit
}

// ---------------------------------------------------------------------------
// Player-obstacle positional correction
// ---------------------------------------------------------------------------

/// The player overlaps an obstacle.
pub open spec fn player_hits_obstacle(p: PlayerM, o: ObstacleM) -> bool {
    boxes_overlap(
        p.x, p.y, PLAYER_HALF_X as int, PLAYER_HALF_Y as int,
        o.x, o.y, OBSTACLE_HALF_X as int, OBSTACLE_HALF_Y as int,
    )
}

/// Correction against one obstacle: push the player flush to the nearer
/// vertical face, zero its horizontal velocity, and lift it onto the top
/// face when it sits above the obstacle's center.
pub open spec fn resolve_obstacle(p: PlayerM, o: ObstacleM) -> PlayerM {
    if player_hits_obstacle(p, o) {
        PlayerM {
            x: if p.x < o.x {
                o.x - OBSTACLE_HALF_X - PLAYER_HALF_X
            } else {
                o.x + OBSTACLE_HALF_X + PLAYER_HALF_X
            },
            y: if p.y > o.y {
                o.y + OBSTACLE_HALF_Y + PLAYER_HALF_Y
            } else {
                p.y
            },
            vx: 0,
            ..p
        }
    } else {
        p
    }
}

/// Corrections against a snapshot of the obstacles, applied one at a time in
/// order, each against the player as the previous one left it.
pub open spec fn resolve_obstacles(p: PlayerM, obs: Seq<ObstacleM>) -> PlayerM
    decreases obs.len(),
{
    if obs.len() == 0 {
        p
    } else {
        resolve_obstacle(resolve_obstacles(p, obs.drop_last()), obs.last())
    }
}

/// The world after the player-obstacle stage; only the player changes.
pub open spec fn player_obstacle_stage(w: WorldM) -> WorldM {
    match w.player {
        Some(p) => WorldM { player: Some(resolve_obstacles(p, w.obstacles)), ..w },
        None => w,
    }
}

/// Pushes the player out of every obstacle it overlaps, one obstacle at a
/// time, reading obstacle positions from a snapshot taken before the player
/// moves.
pub fn obstacle_collision_system(w: &mut World)
    requires
        wf_world(old(w)@),
    ensures
        final(w)@ == player_obstacle_stage(old(w)@),
        wf_world(final(w)@),
{
    let p = match w.player {
        Some(p) => p,
        None => {
            proof {
                assert(w@ =~= player_obstacle_stage(old(w)@));
            }
            return;
        }
    };
    let m: usize = w.obstacles.len();
    let mut cur = p;
    let mut k: usize = 0;
    while k < m
        invariant
            wf_world(old(w)@),
            w@ == old(w)@,
            old(w)@.player == Some(p@),
            m == w.obstacles.len(),
            k <= m,
            cur@ == resolve_obstacles(p@, old(w)@.obstacles.take(k as int)),
            -POS_LIMIT <= cur.x <= POS_LIMIT,
            -POS_LIMIT <= cur.y <= POS_LIMIT,
            -VEL_LIMIT <= cur.vx <= VEL_LIMIT,
            cur.vy == p.vy,
            cur.facing == p.facing,
        decreases m - k,
    {
        let o = w.obstacles[k];
        proof {
            assert(o@ == old(w)@.obstacles[k as int]);
            assert(wf_obstacle(old(w)@.ground, old(w)@.obstacles[k as int]));
            assert(old(w)@.obstacles.take(k + 1).drop_last() =~= old(w)@.obstacles.take(k as int));
            assert(old(w)@.obstacles.take(k + 1).last() == old(w)@.obstacles[k as int]);
        }
        if is_colliding(
            cur.x, cur.y, PLAYER_HALF_X, PLAYER_HALF_Y,
            o.x, o.y, OBSTACLE_HALF_X, OBSTACLE_HALF_Y,
        ) {
            if cur.x < o.x {
                cur.x = o.x - OBSTACLE_HALF_X - PLAYER_HALF_X;
            } else {
                cur.x = o.x + OBSTACLE_HALF_X + PLAYER_HALF_X;
            }
            cur.vx = 0;
            if cur.y > o.y {
                cur.y = o.y + OBSTACLE_HALF_Y + PLAYER_HALF_Y;
            }
        }
        k = k + 1;
    }
    proof {
        assert(old(w)@.obstacles.take(m as int) =~= old(w)@.obstacles);
    }
    w.player = Some(cur);
    proof {
        assert(w@ =~= player_obstacle_stage(old(w)@));
    }
}

/// No horizontal overlap is possible between the player and an obstacle when
/// their centers are at least the sum of their half-widths apart.
pub open spec fn x_clear(p: PlayerM, o: ObstacleM) -> bool {
    p.x - o.x >= OBSTACLE_HALF_X + PLAYER_HALF_X || o.x - p.x >= OBSTACLE_HALF_X + PLAYER_HALF_X
}

/// Obstacles whose centers are pairwise at least two player-plus-obstacle
/// widths apart: resolving against one can never push the player into
/// another.
pub open spec fn obstacles_x_separated(obs: Seq<ObstacleM>) -> bool {
    forall|i: int, j: int| #![trigger obs[i], obs[j]]
        0 <= i < obs.len() && 0 <= j < obs.len() && i != j ==>
            obs[i].x + 2 * (OBSTACLE_HALF_X + PLAYER_HALF_X) <= obs[j].x
            || obs[j].x + 2 * (OBSTACLE_HALF_X + PLAYER_HALF_X) <= obs[i].x
}

proof fn lemma_resolve_prefix_clears(p: PlayerM, obs: Seq<ObstacleM>, k: int)
    requires
        obstacles_x_separated(obs),
        0 <= k <= obs.len(),
    ensures
        ({
            let q = resolve_obstacles(p, obs.take(k));
            (q == p && forall|i: int| 0 <= i < k ==> !player_hits_obstacle(p, #[trigger] obs[i]))
                || (forall|i: int| 0 <= i < obs.len() ==> x_clear(q, #[trigger] obs[i]))
        }),
    decreases k,
{
    if k == 0 {
        assert(obs.take(0).len() == 0);
    } else {
        lemma_resolve_prefix_clears(p, obs, k - 1);
        assert(obs.take(k).drop_last() =~= obs.take(k - 1));
        assert(obs.take(k).last() == obs[k - 1]);
        let q0 = resolve_obstacles(p, obs.take(k - 1));
        let q = resolve_obstacle(q0, obs[k - 1]);
        assert(q == resolve_obstacles(p, obs.take(k)));
        if q0 == p && forall|i: int| 0 <= i < k - 1 ==> !player_hits_obstacle(
            p,
            #[trigger] obs[i],
        ) {
            if player_hits_obstacle(p, obs[k - 1]) {
                assert forall|i: int| 0 <= i < obs.len() implies x_clear(q, #[trigger] obs[i]) by {
                    if i != k - 1 {
                        assert(obs[i].x + 2 * (OBSTACLE_HALF_X + PLAYER_HALF_X) <= obs[k - 1].x
                            || obs[k - 1].x + 2 * (OBSTACLE_HALF_X + PLAYER_HALF_X) <= obs[i].x);
                    }
                }
            }
        } else {
            assert(x_clear(q0, obs[k - 1]));
            assert(!player_hits_obstacle(q0, obs[k - 1]));
            assert(q == q0);
        }
    }
}

/// After the player-obstacle stage, the player overlaps none of the
/// obstacles it was resolved against, provided their centers are pairwise
/// separated as `obstacles_x_separated` asks.
pub proof fn lemma_obstacle_resolution_clears(p: PlayerM, obs: Seq<ObstacleM>)
    requires
        obstacles_x_separated(obs),
    ensures
        forall|i: int| 0 <= i < obs.len() ==> !player_hits_obstacle(
            resolve_obstacles(p, obs),
            #[trigger] obs[i],
        ),
{
    lemma_resolve_prefix_clears(p, obs, obs.len() as int);
    assert(obs.take(obs.len() as int) =~= obs);
}

/// Obstacle correction never pushes a grounded player below resting height:
/// the only vertical move is a lift onto an obstacle's top face.
pub proof fn lemma_resolve_keeps_above(top: int, p: PlayerM, obs: Seq<ObstacleM>)
    requires
        p.y >= top + PLAYER_HALF_Y,
        forall|i: int| 0 <= i < obs.len() ==> (#[trigger] obs[i]).y == top + OBSTACLE_HALF_Y,
    ensures
        resolve_obstacles(p, obs).y >= top + PLAYER_HALF_Y,
    decreases obs.len(),
{
    if obs.len() > 0 {
        assert(forall|i: int| 0 <= i < obs.len() - 1 ==> obs.drop_last()[i] == obs[i]);
        lemma_resolve_keeps_above(top, p, obs.drop_last());
        assert(obs.last() == obs[obs.len() - 1]);
    }
}

} // verus!
