//! Minesweeper board generation: a grid of tiles, random mine placement,
//! neighbour counts, and the layout arithmetic that places a board in a viewport.

pub mod board;
pub mod layout;
pub mod tile;
pub mod tile_map;

pub use board::{create_board, Board, BoardPlugin};
pub use layout::{
    adaptative_tile_size, compute_layout, Anchor, BoardLayout, BoardOptions, BoardPosition, Point,
    TileSize, Viewport,
};
pub use tile::{CountColor, Tile};
pub use tile_map::{BoardError, TileMap};
