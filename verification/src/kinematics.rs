//! Kinematics: gravity on the player, explicit-Euler integration for every
//! entity that carries a velocity.

use vstd::prelude::*;
use crate::tuning::{POS_LIMIT, VEL_LIMIT, DT_LIMIT};
use crate::geom::{displacement, clip, scale_by_dt, clip_i64};
use crate::world::{World, WorldM, PlayerM, EnemyM, Enemy, wf_world, wf_enemy};

verus! {

/// The player after the gravity stage: vertical velocity grows by one frame
/// of gravity, saturated to the representable range.
pub open spec fn gravity_player(gravity: int, dt: int, p: PlayerM) -> PlayerM {
    PlayerM { vy: clip(-VEL_LIMIT as int, VEL_LIMIT as int, p.vy + displacement(gravity, dt)), ..p }
}

/// The world after the gravity stage; enemies feel no gravity.
pub open spec fn gravity_stage(w: WorldM, dt: int) -> WorldM {
    match w.player {
        Some(p) => WorldM { player: Some(gravity_player(w.gravity, dt, p)), ..w },
        None => w,
    }
}

/// The player after integration: each coordinate advances by one frame of
/// its velocity, saturated to the representable range.
pub open spec fn move_player(dt: int, p: PlayerM) -> PlayerM {
    PlayerM {
        x: clip(-POS_LIMIT as int, POS_LIMIT as int, p.x + displacement(p.vx, dt)),
        y: clip(-POS_LIMIT as int, POS_LIMIT as int, p.y + displacement(p.vy, dt)),
        ..p
    }
}

/// An enemy after integration; enemies have no vertical velocity.
pub open spec fn move_enemy(dt: int, e: EnemyM) -> EnemyM {
    EnemyM { x: clip(-POS_LIMIT as int, POS_LIMIT as int, e.x + displacement(e.vx, dt)), ..e }
}

/// The world after the integration stage.
pub open spec fn move_stage(w: WorldM, dt: int) -> WorldM {
    WorldM {
        player: match w.player {
            Some(p) => Some(move_player(dt, p)),
            None => None,
        },
        enemies: Seq::new(w.enemies.len(), |i: int| move_enemy(dt, w.enemies[i])),
        ..w
    }
}

/// Adds one frame of gravity to the player's vertical velocity.
pub fn apply_gravity_system(w: &mut World, dt: i64)
    requires
        wf_world(old(w)@),
        dt <= DT_LIMIT,
    ensures
        final(w)@ == gravity_stage(old(w)@, dt as int),
        wf_world(final(w)@),
{
    match w.player {
        Some(p) => {
            let d: i64 = scale_by_dt(w.gravity.0, dt);
            let mut np = p;
            np.vy = clip_i64(-VEL_LIMIT, VEL_LIMIT, p.vy + d);
            w.player = Some(np);
            proof {
                assert(np@ == gravity_player(old(w)@.gravity, dt as int, p@));
                assert(w@ =~= gravity_stage(old(w)@, dt as int));
            }
        }
        None => {
            proof {
                assert(w@ =~= gravity_stage(old(w)@, dt as int));
            }
        }
    }
}

/// Moves the player and every enemy by one frame of their velocities.
pub fn movement_system(w: &mut World, dt: i64)
    requires
        wf_world(old(w)@),
        dt <= DT_LIMIT,
    ensures
        final(w)@ == move_stage(old(w)@, dt as int),
        wf_world(final(w)@),
{
    let new_player = match w.player {
        Some(p) => {
            let dx: i64 = scale_by_dt(p.vx, dt);
            let dy: i64 = scale_by_dt(p.vy, dt);
            let mut np = p;
            np.x = clip_i64(-POS_LIMIT, POS_LIMIT, p.x + dx);
            np.y = clip_i64(-POS_LIMIT, POS_LIMIT, p.y + dy);
            Some(np)
        }
        None => None,
    };
    let n: usize = w.enemies.len();
    let mut moved: Vec<Enemy> = Vec::new();
    let mut i: usize = 0;
    while i < n
        invariant
            wf_world(old(w)@),
            dt <= DT_LIMIT,
            w@ == old(w)@,
            n == w.enemies.len(),
            i <= n,
            moved@.len() == i,
            forall|j: int| 0 <= j < i ==> moved@[j]@ == move_enemy(dt as int, old(w)@.enemies[j]),
        decreases n - i,
    {
        let e = w.enemies[i];
        proof {
            assert(e@ == old(w)@.enemies[i as int]);
            assert(wf_enemy(old(w)@.ground, old(w)@.enemies[i as int]));
        }
        let dx: i64 = scale_by_dt(e.vx, dt);
        let mut ne = e;
        ne.x = clip_i64(-POS_LIMIT, POS_LIMIT, e.x + dx);
        moved.push(ne);
        i = i + 1;
    }
    w.player = new_player;
    w.enemies = moved;
    proof {
        assert(w@.enemies =~= move_stage(old(w)@, dt as int).enemies);
        assert(w@ =~= move_stage(old(w)@, dt as int));
        assert forall|j: int| 0 <= j < w@.enemies.len() implies wf_enemy(
            w@.ground,
            #[trigger] w@.enemies[j],
        ) by {
            assert(wf_enemy(old(w)@.ground, old(w)@.enemies[j]));
        }
    }
}

} // verus!
