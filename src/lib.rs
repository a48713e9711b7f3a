//! A tile map with bounded, collision-aware movement of objects, an
//! off-screen frame that the map and its objects are rendered into, and the
//! decision taken on each key press of the game loop.

pub mod color;
pub mod game;
pub mod grid;
pub mod map;
pub mod object;
pub mod render;
pub mod tile;
