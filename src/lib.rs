//! Game-state classification and dungeon navigation planning for an agent
//! that plays a dungeon crawler from screen samples.
//!
//! A screen sample (`Bitmap`) is classified into a `State`; in the dungeon a
//! map of tiles (`Dungeon`) is read from it and merged with the map kept from
//! earlier screens. The planner picks the next `Action` from the state, using
//! shortest-route and nearest-unvisited-tile searches on that map, and
//! `run_action` turns an action into a tap and a predicted position.

pub mod bitmap;
pub mod classify;
pub mod coords;
pub mod dungeon;
pub mod explore;
pub mod planner;
pub mod readout;
pub mod sampling;
pub mod search;
pub mod state;
pub mod text;

pub use bitmap::{Bitmap, Color, DungeonInfo};
pub use classify::get_state;
pub use coords::{Coords, MoveDirection};
pub use dungeon::{Character, Dungeon, DungeonState, Enemy, Health, Tile};
pub use explore::RandomTarget;
pub use planner::{
    Action, Policy, Tap, action_is_runnable, adb_move, determine_action, determine_action_with_policy, plan_needs_position,
    run_action,
};
pub use readout::{Raster, TextChar};
pub use sampling::{get_characters, get_enemy, get_tiles, sample_has_dead_characters};
pub use search::SearchGoal;
pub use state::{State, StateError, StateType};
pub use text::{parse_info, text_mentions_dead};
