use vstd::prelude::*;
use crate::level::{selection_after, LevelInfo, LevelSelection};
use crate::level::update_level_selection;

verus! {

/// Marker for the in-game subsystem. Spawning the imported level and fixing
/// texture filtering are engine-side; its logic keeps the level selection on
/// the level the player stands in.
pub struct InGamePlugin;

impl InGamePlugin {
    /// The in-game pass for one frame: follow the player across levels.
    pub fn step(
        selection: &mut LevelSelection,
        levels: &Vec<LevelInfo>,
        player_x: i64,
        player_y: i64,
    )
        requires
            forall|i: int|
                0 <= i < levels@.len() ==> 0 <= (#[trigger] levels@[i]).px_wid && levels@[i].px
                    + levels@[i].px_wid <= i64::MAX && 0 <= levels@[i].px_hei && levels@[i].py
                    + levels@[i].px_hei <= i64::MAX,
        ensures
            *final(selection) == selection_after(*old(selection), levels@, player_x, player_y),
    {
        update_level_selection(selection, levels, player_x, player_y);
    }
}

} // verus!
