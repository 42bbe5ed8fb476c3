//! Core logic of a tile-based puzzle platformer: wall-grid merging into
//! collision rectangles, switch press tracking, door activation, the player
//! ability state machine, and the player animation / position-history pass.
//!
//! The engine around the game (rendering, physics stepping, asset loading,
//! input binding and windowing) is an external collaborator: it hands this
//! library plain values (grid cells, collision events, input flags, frame
//! deltas) and carries out the actions the library decides on.

pub mod door;
pub mod in_game;
pub mod level;
pub mod level_data;
pub mod main_menu;
pub mod pause_menu;
pub mod paused;
pub mod player;
pub mod state;
pub mod states;
pub mod switch;
pub mod timer;
pub mod wall;
pub mod walls;
