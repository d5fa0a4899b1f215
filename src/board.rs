use vstd::prelude::*;
use crate::layout::{
    compute_layout, default_options, layout_of, tile_size_valid, BoardLayout, BoardOptions,
    Viewport,
};
use crate::tile_map::{BoardError, TileMap};

verus! {

/// A generated grid and, where a viewport was known, where to draw it.
pub struct Board {
    pub tile_map: TileMap,
    pub layout: Option<BoardLayout>,
}

/// The options in force: those given, or the defaults.
pub open spec fn effective_options(options: Option<BoardOptions>) -> BoardOptions {
    match options {
        Some(o) => o,
        None => default_options(),
    }
}

/// The board game itself, as seen by the host engine.
pub struct BoardPlugin;

impl BoardPlugin {
    /// A 20 by 20 grid with 40 mines at random places.
    pub fn create_board() -> (r: TileMap)
        ensures
            r@.is_generated(),
            r@.width == 20,
            r@.height == 20,
            r@.bomb_count == 40,
    {
        let mut tile_map = TileMap::create_empty(20, 20).unwrap();
        let placed = tile_map.set_bombs(40);
        assert(placed is Ok);
        tile_map
    }
}

/// Builds a board from `options` (the defaults where none are given): a grid
/// of the chosen size with the chosen number of mines at random places, and,
/// where `viewport` is known, its layout in that viewport.
pub fn create_board(options: Option<BoardOptions>, viewport: Option<Viewport>) -> (r: Result<Board, BoardError>)
    requires
        tile_size_valid(effective_options(options).tile_size),
    ensures
        ({
            let o = effective_options(options);
            let (w, h) = (o.map_size.0 as int, o.map_size.1 as int);
            &&& r is Err <==> (w == 0 || h == 0 || o.bomb_count > w * h)
            &&& (w == 0 || h == 0) ==> r == Err::<Board, BoardError>(BoardError::InvalidDimensions)
            &&& (w > 0 && h > 0 && o.bomb_count > w * h) ==> r == Err::<Board, BoardError>(BoardError::InvalidBombCount)
            &&& r is Ok ==> {
                let b = r->Ok_0;
                &&& b.tile_map@.is_generated()
                &&& b.tile_map@.width == w
                &&& b.tile_map@.height == h
                &&& b.tile_map@.bomb_count == o.bomb_count
                &&& b.layout == match viewport {
                    Some(v) => Some(layout_of(o.map_size, v, o)),
                    None => None::<BoardLayout>,
                }
            }
        }),
{
    let options = match options {
        Some(o) => o,
        None => BoardOptions::default(),
    };
    let mut tile_map = TileMap::create_empty(options.map_size.0, options.map_size.1)?;
    tile_map.set_bombs(options.bomb_count)?;
    let layout = match viewport {
        Some(v) => Some(compute_layout((tile_map.width(), tile_map.height()), &v, &options)),
        None => None,
    };
    Ok(Board { tile_map, layout })
}

} // verus!
