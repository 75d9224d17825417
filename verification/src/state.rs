use vstd::prelude::*;

verus! {

/// Whether the player is alive and the survival systems run, or dead.
#[derive(Clone, Copy, Debug, PartialEq, Eq, Structural)]
pub enum GameState {
    Playing,
    Dead,
}

/// What a change of state asks the caller to do.
#[derive(Clone, Copy, Debug, PartialEq, Eq, Structural)]
pub enum Transition {
    /// The state is kept.
    Stay,
    /// The player died: the death screen is shown.
    Died,
    /// The player restarted: needs and health go back to their defaults and the
    /// death screen is removed.
    Restarted,
}

impl Default for GameState {
    fn default() -> (s: GameState)
        ensures
            s == GameState::Playing,
    {
        GameState::Playing
    }
}

impl GameState {
    /// Whether the state is `Playing`.
    pub fn is_playing(&self) -> (b: bool)
        ensures
            b == (*self == GameState::Playing),
    {
        match self {
            GameState::Playing => true,
            GameState::Dead => false,
        }
    }
}

/// The death check: while playing, depleted health kills the player.
pub open spec fn death_step(state: GameState, health_depleted: bool) -> (GameState, Transition) {
    if state == GameState::Playing && health_depleted {
        (GameState::Dead, Transition::Died)
    } else {
        (state, Transition::Stay)
    }
}

/// The restart key: while dead, pressing it starts playing again.
pub open spec fn restart_step(state: GameState, restart_pressed: bool) -> (GameState, Transition) {
    if state == GameState::Dead && restart_pressed {
        (GameState::Playing, Transition::Restarted)
    } else {
        (state, Transition::Stay)
    }
}

/// Decides the death check for one frame; `health_depleted` says whether the
/// current health is at or below zero.
pub fn check_death(state: GameState, health_depleted: bool) -> (r: (GameState, Transition))
    ensures
        r == death_step(state, health_depleted),
{
    if state.is_playing() && health_depleted {
        (GameState::Dead, Transition::Died)
    } else {
        (state, Transition::Stay)
    }
}

/// Decides the restart for one frame; `restart_pressed` says whether the restart key
/// was pressed.
pub fn restart(state: GameState, restart_pressed: bool) -> (r: (GameState, Transition))
    ensures
        r == restart_step(state, restart_pressed),
{
    if !state.is_playing() && restart_pressed {
        (GameState::Playing, Transition::Restarted)
    } else {
        (state, Transition::Stay)
    }
}

/// A restart right after a death brings the game back to playing.
pub proof fn lemma_restart_undoes_death()
    ensures
        death_step(GameState::Playing, true) == (GameState::Dead, Transition::Died),
        restart_step(death_step(GameState::Playing, true).0, true) == (
            GameState::Playing,
            Transition::Restarted,
        ),
{
}

/// Each step changes the state exactly when it reports a transition, and each
/// transition leads into the state it names.
pub proof fn lemma_transition_iff_change(state: GameState, flag: bool)
    ensures
        (death_step(state, flag).1 == Transition::Stay) <==> (death_step(state, flag).0 == state),
        (restart_step(state, flag).1 == Transition::Stay) <==> (restart_step(state, flag).0
            == state),
        death_step(state, flag).1 == Transition::Died ==> death_step(state, flag).0
            == GameState::Dead,
        restart_step(state, flag).1 == Transition::Restarted ==> restart_step(state, flag).0
            == GameState::Playing,
{
}

/// Only a restart leaves the dead state, and only a death leaves the playing state.
pub proof fn lemma_states_are_sticky(state: GameState, flag: bool)
    ensures
        death_step(GameState::Dead, flag).0 == GameState::Dead,
        restart_step(GameState::Playing, flag).0 == GameState::Playing,
        !flag ==> death_step(state, flag).0 == state && restart_step(state, flag).0 == state,
{
}

} // verus!
