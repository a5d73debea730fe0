//! Grid logic of a small tile-based game: decoding a layered tile map into
//! placed tiles, indexing the board by grid cell, moving a player over the
//! grid, and holding back play until the assets are loaded.

pub mod board;
pub mod loading;
pub mod player;
pub mod position;
pub mod scene;
pub mod vectors;
