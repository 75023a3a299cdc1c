//! A grid-puzzle engine: a player token moves over a rectangular grid of
//! tiles, and the tile entered decides what happens (blocking, rotating the
//! player, shifting a whole row or column, or winning).

pub mod codec;
pub mod facing;
pub mod input;
pub mod level;
pub mod position;
pub mod resolver;
pub mod tile;

pub use facing::{Facing, Offset, Side};
pub use input::{half_cells_from_centre, key_direction, pressed_direction, InputKey};
pub use level::{Level, LevelView};
pub use position::{Coord, Position};
pub use resolver::{move_player, MoveReport, Session};
pub use tile::{MoveOutcome, Tile, TileEmpty, TileFinish, TilePlayerRot, TileRowShift, TileWall};
