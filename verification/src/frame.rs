//! The frame driver: one fixed sequence of stages per frame, and the
//! frame-level guarantees that the sequence preserves.

use vstd::prelude::*;
use crate::tuning::{PLAYER_HALF_Y, ENEMY_HALF_Y, DT_LIMIT};
use crate::world::{World, WorldM, FrameInput, FrameOutput, FrameOutM, EnemyM, wf_world};
use crate::input::{input_stage, player_input_system};
use crate::kinematics::{
    gravity_stage, move_stage, move_enemy, apply_gravity_system, movement_system,
};
use crate::wrap::{wrap_stage, wrap_enemy, player_wrap_system, enemy_wrap_system};
use crate::collision::{
    ground_clamp_stage, enemy_obstacle_stage, player_enemy_stage, player_enemy_side_hit,
    player_obstacle_stage, enemy_hits_obstacle, player_hits_enemy, stomp_outcome,
    lemma_clear_enemy_keeps_vx, lemma_resolve_keeps_above, lemma_stomp_keeps_clear_enemies,
    collision_system, enemy_obstacle_collision_system, enemy_collision_system,
    obstacle_collision_system,
};
use crate::hud::{
    hud_display, hud_stage, end_banner_of, exit_of, update_score_system, check_end_game_system,
};

verus! {

/// The world once input, gravity, integration and wrapping have run.
pub open spec fn pre_collision_world(w: WorldM, inp: FrameInput, dt: int) -> WorldM {
    wrap_stage(move_stage(gravity_stage(input_stage(w, inp), dt), dt))
}

/// The world once the ground clamp and the enemy-obstacle reversal have run.
pub open spec fn post_reversal_world(w: WorldM, inp: FrameInput, dt: int) -> WorldM {
    enemy_obstacle_stage(ground_clamp_stage(pre_collision_world(w, inp, dt)))
}

/// The world once both player collision stages have run.
pub open spec fn resolved_world(w: WorldM, inp: FrameInput, dt: int) -> WorldM {
    player_obstacle_stage(player_enemy_stage(post_reversal_world(w, inp, dt)))
}

/// The world at the end of one whole frame.
pub open spec fn step_world(w: WorldM, inp: FrameInput, dt: int) -> WorldM {
    hud_stage(resolved_world(w, inp, dt))
}

/// Everything one frame asks of the host.
pub open spec fn step_output(w: WorldM, inp: FrameInput, dt: int) -> FrameOutM {
    FrameOutM {
        score_display: hud_display(resolved_world(w, inp, dt)),
        side_hit_banner: player_enemy_side_hit(post_reversal_world(w, inp, dt)),
        end_banner: end_banner_of(step_world(w, inp, dt)),
        exit_requested: exit_of(step_world(w, inp, dt)),
    }
}

/// Where enemy `i` stands when the reversal stage examines it: moved by one
/// frame and wrapped; no earlier stage touches enemies otherwise.
pub open spec fn enemy_at_reversal(w: WorldM, dt: int, i: int) -> EnemyM {
    wrap_enemy(w.half_width, move_enemy(dt, w.enemies[i]))
}

/// Runs one frame in the fixed stage order: input, gravity, integration,
/// wrap, ground clamp, enemy-obstacle reversal, player-enemy contact,
/// player-obstacle correction, score display, end check.
///
/// Beyond the exact composition, the contract states the frame invariants:
/// the player never ends a frame below the ground's top, every surviving
/// enemy still rests on the ground, and the score is a non-decreasing
/// multiple of 100.
pub fn step(w: &mut World, inp: FrameInput, dt: i64) -> (out: FrameOutput)
    requires
        wf_world(old(w)@),
        dt <= DT_LIMIT,
    ensures
        final(w)@ == step_world(old(w)@, inp, dt as int),
        out@ == step_output(old(w)@, inp, dt as int),
        wf_world(final(w)@),
        final(w)@.player matches Some(p) ==> p.y >= final(w)@.ground.top_y + PLAYER_HALF_Y,
        forall|i: int| 0 <= i < final(w)@.enemies.len() ==> (#[trigger] final(w)@.enemies[i]).y
            == final(w)@.ground.top_y + ENEMY_HALF_Y,
        old(w)@.score <= final(w)@.score,
        final(w)@.score % 100 == 0,
        final(w)@.ground == old(w)@.ground,
        final(w)@.half_width == old(w)@.half_width,
        final(w)@.obstacles == old(w)@.obstacles,
{
    player_input_system(w, inp);
    apply_gravity_system(w, dt);
    movement_system(w, dt);
    player_wrap_system(w);
    enemy_wrap_system(w);
    collision_system(w);
    enemy_obstacle_collision_system(w);
    let side_hit = enemy_collision_system(w);
    let ghost w_stomped = w@;
    obstacle_collision_system(w);
    proof {
        match w_stomped.player {
            Some(p) => {
                lemma_resolve_keeps_above(w_stomped.ground.top_y, p, w_stomped.obstacles);
            }
            None => {}
        }
    }
    let ghost w_resolved = w@;
    let display = update_score_system(w);
    let r = check_end_game_system(w);
    let out = FrameOutput {
        score_display: display,
        side_hit_banner: side_hit,
        end_banner: r.0,
        exit_requested: r.1,
    };
    proof {
        assert(w@ == step_world(old(w)@, inp, dt as int));
        assert(w_resolved == resolved_world(old(w)@, inp, dt as int));
        assert(out@.score_display == hud_display(w_resolved));
        assert(out@ =~= step_output(old(w)@, inp, dt as int));
    }
    out
}

/// An enemy that overlaps no obstacle when the reversal stage examines it
/// carries its incoming horizontal velocity — and so its direction —
/// unchanged through the reversal; no other stage touches an enemy's
/// velocity at all.
pub proof fn lemma_enemy_vx_preserved(w: WorldM, inp: FrameInput, dt: int, i: int)
    requires
        0 <= i < w.enemies.len(),
        forall|j: int| 0 <= j < w.obstacles.len() ==> !enemy_hits_obstacle(
            enemy_at_reversal(w, dt, i),
            #[trigger] w.obstacles[j],
        ),
    ensures
        post_reversal_world(w, inp, dt).enemies[i] == (EnemyM {
            vx: w.enemies[i].vx,
            ..enemy_at_reversal(w, dt, i)
        }),
{
    let w5 = ground_clamp_stage(pre_collision_world(w, inp, dt));
    assert(w5.enemies[i] == enemy_at_reversal(w, dt, i));
    assert(w5.obstacles =~= w.obstacles);
    lemma_clear_enemy_keeps_vx(w5.enemies[i], w5.obstacles);
}

/// An enemy that overlaps no obstacle when the reversal stage examines it,
/// and that the player does not touch, ends the frame alive with the
/// horizontal velocity it entered the frame with: its sign — the patrol
/// direction — is unchanged over the whole frame.
pub proof fn lemma_enemy_direction_preserved_over_frame(
    w: WorldM,
    inp: FrameInput,
    dt: int,
    i: int,
)
    requires
        0 <= i < w.enemies.len(),
        forall|j: int| 0 <= j < w.obstacles.len() ==> !enemy_hits_obstacle(
            enemy_at_reversal(w, dt, i),
            #[trigger] w.obstacles[j],
        ),
        post_reversal_world(w, inp, dt).player matches Some(p) ==> !player_hits_enemy(
            p,
            post_reversal_world(w, inp, dt).enemies[i],
        ),
    ensures
        exists|j: int| 0 <= j < step_world(w, inp, dt).enemies.len()
            && #[trigger] step_world(w, inp, dt).enemies[j] == (EnemyM {
                vx: w.enemies[i].vx,
                ..enemy_at_reversal(w, dt, i)
            }),
{
    lemma_enemy_vx_preserved(w, inp, dt, i);
    let w6 = post_reversal_world(w, inp, dt);
    let record = EnemyM { vx: w.enemies[i].vx, ..enemy_at_reversal(w, dt, i) };
    assert(w6.enemies[i] == record);
    match w6.player {
        Some(p) => {
            lemma_stomp_keeps_clear_enemies(p, w6.enemies, i);
            let o = stomp_outcome(p, w6.enemies);
            let j: int = choose|j: int|
                0 <= j < o.survivors.len() && #[trigger] o.survivors[j] == w6.enemies[i];
            assert(step_world(w, inp, dt).enemies == o.survivors);
            assert(step_world(w, inp, dt).enemies[j] == record);
        }
        None => {
            assert(step_world(w, inp, dt).enemies[i] == record);
        }
    }
}

} // verus!
