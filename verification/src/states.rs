use vstd::prelude::*;

verus! {

/// Top-level state of the application, in the variant whose play state is
/// named `InGame` and which nests a separate in-game pause state below it.
#[derive(Debug, Clone, Copy, PartialEq, Eq, Structural)]
pub enum GameState {
    MainMenu,
    Loading,
    InGame,
}

/// The in-game sub-state: actively playing, or suspended by the pause menu.
#[derive(Debug, Clone, Copy, PartialEq, Eq, Structural)]
pub enum InGameState {
    Playing,
    Paused,
}

} // verus!
