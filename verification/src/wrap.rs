//! Wrap-around: the player and each enemy re-enter at the opposite screen
//! edge; velocity is unchanged.

use vstd::prelude::*;
use crate::geom::{wrap_coord, lemma_wrap_in_range, lemma_wrap_idempotent};
use crate::world::{World, WorldM, PlayerM, EnemyM, Enemy, wf_world, wf_enemy};

verus! {

/// The player after wrapping.
pub open spec fn wrap_player(half: int, p: PlayerM) -> PlayerM {
    PlayerM { x: wrap_coord(half, p.x), ..p }
}

/// An enemy after wrapping.
pub open spec fn wrap_enemy(half: int, e: EnemyM) -> EnemyM {
    EnemyM { x: wrap_coord(half, e.x), ..e }
}

/// The world after the player wrap stage.
pub open spec fn player_wrap_stage(w: WorldM) -> WorldM {
    match w.player {
        Some(p) => WorldM { player: Some(wrap_player(w.half_width, p)), ..w },
        None => w,
    }
}

/// The world after the enemy wrap stage.
pub open spec fn enemy_wrap_stage(w: WorldM) -> WorldM {
    WorldM { enemies: Seq::new(w.enemies.len(), |i: int| wrap_enemy(w.half_width, w.enemies[i])), ..w }
}

/// The world after both wrap stages.
pub open spec fn wrap_stage(w: WorldM) -> WorldM {
    enemy_wrap_stage(player_wrap_stage(w))
}

/// Wraps the player across the screen edges. Afterwards the player's
/// horizontal position lies within the screen.
pub fn player_wrap_system(w: &mut World)
    requires
        wf_world(old(w)@),
    ensures
        final(w)@ == player_wrap_stage(old(w)@),
        wf_world(final(w)@),
        final(w)@.player matches Some(p) ==>
            -final(w)@.half_width <= p.x <= final(w)@.half_width,
{
    match w.player {
        Some(p) => {
            let mut np = p;
            if p.x > w.half_width {
                np.x = -w.half_width;
            } else if p.x < -w.half_width {
                np.x = w.half_width;
            }
            w.player = Some(np);
            proof {
                assert(np@ == wrap_player(old(w)@.half_width, p@));
                assert(w@ =~= player_wrap_stage(old(w)@));
                lemma_wrap_in_range(old(w)@.half_width, p@.x);
            }
        }
        None => {
            proof {
                assert(w@ =~= player_wrap_stage(old(w)@));
            }
        }
    }
}

/// Wraps every enemy across the screen edges. Afterwards each enemy's
/// horizontal position lies within the screen.
pub fn enemy_wrap_system(w: &mut World)
    requires
        wf_world(old(w)@),
    ensures
        final(w)@ == enemy_wrap_stage(old(w)@),
        wf_world(final(w)@),
        forall|i: int| 0 <= i < final(w)@.enemies.len() ==>
            -final(w)@.half_width <= (#[trigger] final(w)@.enemies[i]).x <= final(w)@.half_width,
{
    let n: usize = w.enemies.len();
    let mut wrapped: Vec<Enemy> = Vec::new();
    let mut i: usize = 0;
    while i < n
        invariant
            wf_world(old(w)@),
            w@ == old(w)@,
            n == w.enemies.len(),
            i <= n,
            wrapped@.len() == i,
            forall|j: int| 0 <= j < i ==> wrapped@[j]@ == wrap_enemy(old(w)@.half_width, old(w)@.enemies[j]),
        decreases n - i,
    {
        let e = w.enemies[i];
        proof {
            assert(e@ == old(w)@.enemies[i as int]);
            assert(wf_enemy(old(w)@.ground, old(w)@.enemies[i as int]));
        }
        let mut ne = e;
        if e.x > w.half_width {
            ne.x = -w.half_width;
        } else if e.x < -w.half_width {
            ne.x = w.half_width;
        }
        wrapped.push(ne);
        i = i + 1;
    }
    w.enemies = wrapped;
    proof {
        assert(w@.enemies =~= enemy_wrap_stage(old(w)@).enemies);
        assert(w@ =~= enemy_wrap_stage(old(w)@));
        assert forall|j: int| 0 <= j < w@.enemies.len() implies wf_enemy(
            w@.ground,
            #[trigger] w@.enemies[j],
        ) && -w@.half_width <= w@.enemies[j].x <= w@.half_width by {
            assert(wf_enemy(old(w)@.ground, old(w)@.enemies[j]));
            lemma_wrap_in_range(old(w)@.half_width, old(w)@.enemies[j].x);
        }
    }
}

/// Running the wrap stage twice in succession is the same as running it once.
pub proof fn lemma_wrap_stage_idempotent(w: WorldM)
    requires
        wf_world(w),
    ensures
        wrap_stage(wrap_stage(w)) == wrap_stage(w),
{
    let w1 = wrap_stage(w);
    match w.player {
        Some(p) => {
            lemma_wrap_idempotent(w.half_width, p.x);
        }
        None => {}
    }
    assert forall|i: int| 0 <= i < w1.enemies.len() implies wrap_enemy(
        w1.half_width,
        #[trigger] w1.enemies[i],
    ) == w1.enemies[i] by {
        lemma_wrap_idempotent(w.half_width, w.enemies[i].x);
    }
    assert(wrap_stage(w1).enemies =~= w1.enemies);
    assert(wrap_stage(w1) =~= w1);
}

} // verus!
