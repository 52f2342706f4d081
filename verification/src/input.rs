//! Input mapping: key state to horizontal velocity, facing, and jumps.

use vstd::prelude::*;
use crate::tuning::{PLAYER_SPEED, PLAYER_JUMP_VELOCITY, PLAYER_HALF_Y};
use crate::world::{World, WorldM, PlayerM, GroundM, FrameInput, wf_world, wf_player};

verus! {

/// Desired horizontal direction: right-keys add one, left-keys take one away.
pub open spec fn direction_of(inp: FrameInput) -> int {
    (if inp.right || inp.d { 1int } else { 0int })
        + (if inp.left || inp.a { -1int } else { 0int })
}

/// A jump key went down this frame.
pub open spec fn jump_requested(inp: FrameInput) -> bool {
    inp.space_just || inp.key2_just
}

/// Ground-contact predicate of the jump rule: the player's center is no
/// higher than resting height.
pub open spec fn on_ground(g: GroundM, p: PlayerM) -> bool {
    p.y <= g.top_y + PLAYER_HALF_Y
}

/// The player after the input stage: horizontal velocity from the held keys,
/// facing from the last non-zero direction, a jump if one was requested while
/// on the ground.
pub open spec fn input_player(g: GroundM, inp: FrameInput, p: PlayerM) -> PlayerM {
    let dir: int = direction_of(inp);
    PlayerM {
        vx: dir * PLAYER_SPEED,
        facing: if dir != 0 { dir } else { p.facing },
        vy: if jump_requested(inp) && on_ground(g, p) {
            PLAYER_JUMP_VELOCITY as int
        } else {
            p.vy
        },
        ..p
    }
}

/// The world after the input stage; only the player changes.
pub open spec fn input_stage(w: WorldM, inp: FrameInput) -> WorldM {
    match w.player {
        Some(p) => WorldM { player: Some(input_player(w.ground, inp, p)), ..w },
        None => w,
    }
}

/// Translates the frame's key state into the player's horizontal velocity and
/// facing, and starts a jump when one was requested on the ground.
pub fn player_input_system(w: &mut World, inp: FrameInput)
    requires
        wf_world(old(w)@),
    ensures
        final(w)@ == input_stage(old(w)@, inp),
        wf_world(final(w)@),
{
    match w.player {
        Some(p) => {
            let mut dir: i64 = 0;
            if inp.left || inp.a {
                dir = dir - 1;
            }
            if inp.right || inp.d {
                dir = dir + 1;
            }
            let mut np = p;
            np.vx = if dir == 1 {
                PLAYER_SPEED
            } else if dir == -1 {
                -PLAYER_SPEED
            } else {
                0
            };
            if dir != 0 {
                np.facing = dir;
            }
            if (inp.space_just || inp.key2_just) && np.y <= w.ground.top_y + PLAYER_HALF_Y {
                np.vy = PLAYER_JUMP_VELOCITY;
            }
            w.player = Some(np);
            proof {
                assert(np@ == input_player(old(w)@.ground, inp, p@));
                assert(w@ =~= input_stage(old(w)@, inp));
                assert(wf_player(np@));
            }
        }
        None => {
            proof {
                assert(w@ =~= input_stage(old(w)@, inp));
            }
        }
    }
}

} // verus!
