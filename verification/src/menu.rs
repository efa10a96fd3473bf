//! The title menu's effect on the simulation: the play button starts an
//! encounter. The menu's floating lights and parallax title are pure
//! presentation and live with the renderer.

use vstd::prelude::*;

use crate::{entered_game, game_setup, GameState, World};

verus! {

/// Marker for the menu's play button; the input layer reports a click on it.
#[derive(Clone, Copy, PartialEq, Eq, Structural, Debug)]
pub struct PlayButton;

/// React to the menu: a click on the play button enters an encounter,
/// resetting the encounter state and spawning its entities.
pub fn menu(w: &mut World, play_clicked: bool)
    requires
        old(w).wf(),
        old(w).state == GameState::Menu,
    ensures
        final(w).wf(),
        play_clicked ==> entered_game(*old(w), *final(w)),
        !play_clicked ==> *final(w) == *old(w),
{
    if play_clicked {
        w.state = GameState::Game;
        game_setup(w);
    }
}

} // verus!
