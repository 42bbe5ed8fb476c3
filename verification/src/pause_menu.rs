use vstd::prelude::*;
use crate::states::InGameState;

verus! {

/// Marker for the pause subsystem in the variant of the game that nests the
/// pause state below play. Its menu layout is engine-side.
pub struct PauseMenuPlugin;

/// Request the paused state when the open input is pressed.
pub fn pause_game(opening_pressed: bool) -> (r: Option<InGameState>)
    ensures
        r == if opening_pressed {
            Some(InGameState::Paused)
        } else {
            None::<InGameState>
        },
{
    if opening_pressed {
        Some(InGameState::Paused)
    } else {
        None
    }
}

/// Request the playing state when the close input is pressed; the pass runs
/// only while the game is paused.
pub fn unpause_game(close_pressed: bool) -> (r: Option<InGameState>)
    ensures
        r == if close_pressed {
            Some(InGameState::Playing)
        } else {
            None::<InGameState>
        },
{
    if close_pressed {
        Some(InGameState::Playing)
    } else {
        None
    }
}

impl PauseMenuPlugin {
    /// The pause passes for one frame: the resume pass runs only while
    /// paused, the pause pass always runs and, writing last, wins when both
    /// inputs are pressed in the same frame.
    pub fn step(current: InGameState, close_pressed: bool, opening_pressed: bool) -> (r: Option<
        InGameState,
    >)
        ensures
            r == if opening_pressed {
                Some(InGameState::Paused)
            } else if current is Paused && close_pressed {
                Some(InGameState::Playing)
            } else {
                None::<InGameState>
            },
    {
        let mut next: Option<InGameState> = None;
        if matches!(current, InGameState::Paused) {
            if let Some(s) = unpause_game(close_pressed) {
                next = Some(s);
            }
        }
        if let Some(s) = pause_game(opening_pressed) {
            next = Some(s);
        }
        next
    }
}

} // verus!
