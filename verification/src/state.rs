use vstd::prelude::*;

verus! {

/// Top-level state of the application: menu, asset loading, or play.
#[derive(Debug, Clone, Copy, PartialEq, Eq, Structural)]
pub enum GameState {
    MainMenu,
    Loading,
    Game,
}

/// Whether play is suspended by the pause menu.
#[derive(Debug, Clone, Copy, PartialEq, Eq, Structural)]
pub enum PauseState {
    Paused,
    Unpaused,
}

} // verus!
