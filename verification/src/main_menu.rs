use vstd::prelude::*;
use crate::states::GameState;

verus! {

/// Marker for the main-menu subsystem. Its screen layout and title animation
/// are engine-side; its one decision is when the game starts.
pub struct MainMenuPlugin;

/// Leave the menu for the loading state when the start input is pressed.
pub fn game_start(start_pressed: bool) -> (r: Option<GameState>)
    ensures
        r == if start_pressed {
            Some(GameState::Loading)
        } else {
            None::<GameState>
        },
{
    if start_pressed {
        Some(GameState::Loading)
    } else {
        None
    }
}

} // verus!
