use vstd::prelude::*;
use crate::state::PauseState;

verus! {

/// Marker for the pause subsystem in the variant of the game that keeps a
/// top-level pause state. Its menu layout is engine-side; its one decision is
/// the pause transition below.
pub struct PausedPlugin;

/// Decide the next pause state from this frame's menu inputs: the close
/// input resumes a paused game, the open input pauses a running one, and the
/// close input is considered first.
pub fn change_pause_state(close_pressed: bool, open_pressed: bool, current: PauseState) -> (r:
    Option<PauseState>)
    ensures
        r == if close_pressed && current is Paused {
            Some(PauseState::Unpaused)
        } else if open_pressed && current is Unpaused {
            Some(PauseState::Paused)
        } else {
            None::<PauseState>
        },
{
    if close_pressed && matches!(current, PauseState::Paused) {
        Some(PauseState::Unpaused)
    } else if open_pressed && matches!(current, PauseState::Unpaused) {
        Some(PauseState::Paused)
    } else {
        None
    }
}

} // verus!
