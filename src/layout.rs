use vstd::prelude::*;

verus! {

/// How the edge of a tile is chosen, in world units.
#[derive(Clone, Copy, Debug, PartialEq, Eq, Structural)]
pub enum TileSize {
    /// Always this size.
    Fixed(u32),
    /// The largest size at which the grid fits the viewport, kept within `min..=max`.
    Adaptive { min: u32, max: u32 },
}

/// A point or an offset in world space, in world units.
#[derive(Clone, Copy, Debug, PartialEq, Eq, Structural)]
pub struct Point {
    pub x: i32,
    pub y: i32,
    pub z: i32,
}

/// Where the bottom-left corner of the board goes.
#[derive(Clone, Copy, Debug, PartialEq, Eq, Structural)]
pub enum BoardPosition {
    /// Centred on the origin, then moved by `offset`.
    Centered { offset: Point },
    /// At this point.
    Custom(Point),
}

/// The visible area, in world units.
#[derive(Clone, Copy, Debug, PartialEq, Eq, Structural)]
pub struct Viewport {
    pub width: u32,
    pub height: u32,
}

/// The anchor of a board in world space: its bottom-left corner.
#[derive(Clone, Copy, Debug, PartialEq, Eq, Structural)]
pub struct Anchor {
    pub x: i64,
    pub y: i64,
    pub z: i64,
}

/// Where and how large a board is drawn.
#[derive(Clone, Copy, Debug, PartialEq, Eq)]
pub struct BoardLayout {
    /// The edge of one tile.
    pub tile_size: u32,
    /// Width and height of the whole board.
    pub board_size: (u64, u64),
    /// The bottom-left corner of the board.
    pub board_position: Anchor,
}

/// The settings a board is built from.
#[derive(Clone, Copy, Debug, PartialEq, Eq)]
pub struct BoardOptions {
    /// Width and height of the grid, in tiles.
    pub map_size: (u16, u16),
    /// How many mines the grid holds.
    pub bomb_count: u32,
    /// Where the board goes.
    pub position: BoardPosition,
    /// How large a tile is.
    pub tile_size: TileSize,
    /// The gap left between neighbouring tiles when they are drawn.
    pub tile_padding: u32,
}

/// The options used when none are given: a 20 by 20 grid with 40 mines,
/// tiles between 10 and 50 units, centred, without padding.
pub open spec fn default_options() -> BoardOptions {
    BoardOptions {
        map_size: (20, 20),
        bomb_count: 40,
        position: BoardPosition::Centered { offset: Point { x: 0, y: 0, z: 0 } },
        tile_size: TileSize::Adaptive { min: 10, max: 50 },
        tile_padding: 0,
    }
}

impl Default for BoardOptions {
    fn default() -> (r: BoardOptions)
        ensures
            r == default_options(),
    {
        BoardOptions {
            map_size: (20, 20),
            bomb_count: 40,
            position: BoardPosition::Centered { offset: Point { x: 0, y: 0, z: 0 } },
            tile_size: TileSize::Adaptive { min: 10, max: 50 },
            tile_padding: 0,
        }
    }
}

/// A sizing policy that can be applied: an adaptive range must not be empty.
pub open spec fn tile_size_valid(t: TileSize) -> bool {
    t is Adaptive ==> t->min <= t->max
}

/// `v` brought into `lo..=hi`.
pub open spec fn clamp(v: int, lo: int, hi: int) -> int {
    if v < lo {
        lo
    } else if v > hi {
        hi
    } else {
        v
    }
}

pub open spec fn min_int(a: int, b: int) -> int {
    if a <= b { a } else { b }
}

/// The adaptive tile edge: the largest whole edge at which a `gw` by `gh` grid
/// fits a `vw` by `vh` viewport, clamped to `lo..=hi`.
pub open spec fn adaptive_size(vw: int, vh: int, gw: int, gh: int, lo: int, hi: int) -> int {
    clamp(min_int(vw / gw, vh / gh), lo, hi)
}

/// The tile edge that `policy` gives for a `grid` shown in `viewport`.
pub open spec fn spec_tile_size(grid: (u16, u16), viewport: Viewport, policy: TileSize) -> u32 {
    match policy {
        TileSize::Fixed(v) => v,
        TileSize::Adaptive { min, max } => adaptive_size(
            viewport.width as int,
            viewport.height as int,
            grid.0 as int,
            grid.1 as int,
            min as int,
            max as int,
        ) as u32,
    }
}

/// The layout of a `grid` shown in `viewport` under `options`.
pub open spec fn layout_of(grid: (u16, u16), viewport: Viewport, options: BoardOptions) -> BoardLayout {
    let ts = spec_tile_size(grid, viewport, options.tile_size);
    let bw = grid.0 * ts;
    let bh = grid.1 * ts;
    BoardLayout {
        tile_size: ts,
        board_size: (bw as u64, bh as u64),
        board_position: match options.position {
            BoardPosition::Centered { offset } => Anchor {
                x: (offset.x - bw / 2) as i64,
                y: (offset.y - bh / 2) as i64,
                z: offset.z as i64,
            },
            BoardPosition::Custom(p) => Anchor { x: p.x as i64, y: p.y as i64, z: p.z as i64 },
        },
    }
}

/// The largest whole tile edge at which a grid of `size` fits `viewport`,
/// kept within `bounds`.
pub fn adaptative_tile_size(viewport: &Viewport, bounds: (u32, u32), size: (u16, u16)) -> (r: u32)
    requires
        size.0 > 0,
        size.1 > 0,
        bounds.0 <= bounds.1,
    ensures
        r == adaptive_size(
            viewport.width as int,
            viewport.height as int,
            size.0 as int,
            size.1 as int,
            bounds.0 as int,
            bounds.1 as int,
        ),
{
    let max_width: u32 = viewport.width / size.0 as u32;
    let max_height: u32 = viewport.height / size.1 as u32;
    let fit: u32 = if max_width <= max_height { max_width } else { max_height };
    if fit < bounds.0 {
        bounds.0
    } else if fit > bounds.1 {
        bounds.1
    } else {
        fit
    }
}

/// The tile edge, board size and board anchor of a grid of `map_size`
/// shown in `viewport` under `options`.
pub fn compute_layout(map_size: (u16, u16), viewport: &Viewport, options: &BoardOptions) -> (r: BoardLayout)
    requires
        map_size.0 > 0,
        map_size.1 > 0,
        tile_size_valid(options.tile_size),
    ensures
        r == layout_of(map_size, *viewport, *options),
{
    let tile_size: u32 = match options.tile_size {
        TileSize::Fixed(v) => v,
        TileSize::Adaptive { min, max } => adaptative_tile_size(viewport, (min, max), map_size),
    };
    assert((map_size.0 as int) * (tile_size as int) <= 0xffff * 0xffff_ffff) by (nonlinear_arith)
        requires map_size.0 <= 0xffff, tile_size <= 0xffff_ffff;
    assert((map_size.1 as int) * (tile_size as int) <= 0xffff * 0xffff_ffff) by (nonlinear_arith)
        requires map_size.1 <= 0xffff, tile_size <= 0xffff_ffff;
    let bw: u64 = map_size.0 as u64 * tile_size as u64;
    let bh: u64 = map_size.1 as u64 * tile_size as u64;
    let board_position = match options.position {
        BoardPosition::Centered { offset } => Anchor {
            x: offset.x as i64 - (bw / 2) as i64,
            y: offset.y as i64 - (bh / 2) as i64,
            z: offset.z as i64,
        },
        BoardPosition::Custom(p) => Anchor { x: p.x as i64, y: p.y as i64, z: p.z as i64 },
    };
    BoardLayout { tile_size, board_size: (bw, bh), board_position }
}

/// The layout depends on the grid size, the viewport and the options alone:
/// two layouts computed from the same inputs are equal.
pub proof fn lemma_layout_deterministic(
    map_size: (u16, u16),
    viewport: Viewport,
    options: BoardOptions,
    a: BoardLayout,
    b: BoardLayout,
)
    requires
        a == layout_of(map_size, viewport, options),
        b == layout_of(map_size, viewport, options),
    ensures
        a == b,
{
}

/// A fixed tile edge is used whatever the grid and the viewport.
pub proof fn lemma_fixed_tile_size(map_size: (u16, u16), viewport: Viewport, options: BoardOptions, v: u32)
    requires
        options.tile_size == TileSize::Fixed(v),
    ensures
        layout_of(map_size, viewport, options).tile_size == v,
        layout_of(map_size, viewport, options).board_size == ((map_size.0 * v) as u64, (map_size.1 * v) as u64),
{
}

/// A board centred without offset has its bottom-left corner at minus half
/// its size on each axis.
pub proof fn lemma_centered_anchor(map_size: (u16, u16), viewport: Viewport, options: BoardOptions)
    requires
        options.position == (BoardPosition::Centered { offset: Point { x: 0, y: 0, z: 0 } }),
    ensures
        ({
            let l = layout_of(map_size, viewport, options);
            &&& l.board_position.x == -(l.board_size.0 / 2)
            &&& l.board_position.y == -(l.board_size.1 / 2)
            &&& l.board_position.z == 0
        }),
{
    let ts = spec_tile_size(map_size, viewport, options.tile_size);
    assert((map_size.0 as int) * (ts as int) <= 0xffff * 0xffff_ffff) by (nonlinear_arith)
        requires map_size.0 <= 0xffff, ts <= 0xffff_ffff;
    assert((map_size.1 as int) * (ts as int) <= 0xffff * 0xffff_ffff) by (nonlinear_arith)
        requires map_size.1 <= 0xffff, ts <= 0xffff_ffff;
    assert(0 <= (map_size.0 as int) * (ts as int)) by (nonlinear_arith)
        requires 0 <= map_size.0, 0 <= ts;
    assert(0 <= (map_size.1 as int) * (ts as int)) by (nonlinear_arith)
        requires 0 <= map_size.1, 0 <= ts;
}

} // verus!
