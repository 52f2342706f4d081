//! Score display and the end-of-game check.

use vstd::prelude::*;
use crate::world::{World, WorldM, Banner, wf_world};

verus! {

/// The score text owed to the HUD this frame: the new value when the score
/// changed since it was last displayed, nothing otherwise.
pub open spec fn hud_display(w: WorldM) -> Option<int> {
    if w.score != w.displayed_score {
        Some(w.score)
    } else {
        None
    }
}

/// The world after the score stage: the displayed score has caught up.
pub open spec fn hud_stage(w: WorldM) -> WorldM {
    WorldM { displayed_score: w.score, ..w }
}

/// The banner owed at the end of a frame: a win as soon as no enemy remains,
/// a loss when the player is gone. The empty-enemy check comes first, so a
/// win takes precedence.
pub open spec fn end_banner_of(w: WorldM) -> Option<Banner> {
    if w.enemies.len() == 0 {
        Some(Banner::Win)
    } else if w.player is None {
        Some(Banner::GameOver)
    } else {
        None
    }
}

/// Whether the frame asks the host to leave the main loop.
pub open spec fn exit_of(w: WorldM) -> bool {
    end_banner_of(w) is Some
}

/// Reports the score to display when it changed since the last frame, and
/// records that it has been displayed.
pub fn update_score_system(w: &mut World) -> (display: Option<i64>)
    requires
        wf_world(old(w)@),
    ensures
        final(w)@ == hud_stage(old(w)@),
        wf_world(final(w)@),
        display matches Some(n) ==> hud_display(old(w)@) == Some(n as int),
        display is None ==> hud_display(old(w)@) is None,
{
    let display = if w.score.0 != w.displayed_score {
        w.displayed_score = w.score.0;
        Some(w.score.0)
    } else {
        None
    };
    proof {
        assert(w@ =~= hud_stage(old(w)@));
    }
    display
}

/// Decides the end of the game: a win once every enemy is gone, a loss once
/// the player is gone; either one requests termination.
pub fn check_end_game_system(w: &World) -> (r: (Option<Banner>, bool))
    ensures
        r.0 == end_banner_of(w@),
        r.1 == exit_of(w@),
{
    if w.enemies.len() == 0 {
        (Some(Banner::Win), true)
    } else if w.player.is_none() {
        (Some(Banner::GameOver), true)
    } else {
        (None, false)
    }
}

} // verus!
