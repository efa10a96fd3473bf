//! The defeat screen's effect on the simulation: the retry button starts a
//! fresh encounter with everything reset.

use vstd::prelude::*;

use crate::{entered_game, game_setup, GameState, World};

verus! {

/// Marker for the defeat screen's retry button.
#[derive(Clone, Copy, PartialEq, Eq, Structural, Debug)]
pub struct PlayAgainButton;

/// React to the defeat screen: a click on the retry button re-enters an
/// encounter — health and score reset, the encounter clock restarts, and no
/// enemy of the previous encounter remains.
pub fn death_screen(w: &mut World, play_again_clicked: bool)
    requires
        old(w).wf(),
        old(w).state == GameState::Death,
    ensures
        final(w).wf(),
        play_again_clicked ==> entered_game(*old(w), *final(w)),
        !play_again_clicked ==> *final(w) == *old(w),
{
    if play_again_clicked {
        w.state = GameState::Game;
        game_setup(w);
    }
}

} // verus!
