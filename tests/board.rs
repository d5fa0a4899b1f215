use board_plugin::tile_map::pick_cells;
use board_plugin::tile::count_color;
use board_plugin::{
    adaptative_tile_size, compute_layout, create_board, Anchor, BoardError, BoardOptions,
    BoardPlugin, BoardPosition, CountColor, Point, Tile, TileMap, TileSize, Viewport,
};

fn all_tiles(m: &TileMap) -> Vec<Tile> {
    let mut v = Vec::new();
    for y in 0..m.height() {
        for x in 0..m.width() {
            v.push(m.tile_at(x, y));
        }
    }
    v
}

fn mine_total(m: &TileMap) -> usize {
    all_tiles(m).iter().filter(|t| t.is_mine()).count()
}

fn assert_consistent(m: &TileMap) {
    for y in 0..m.height() {
        for x in 0..m.width() {
            let tally = m
                .neighbor_coordinates(x, y)
                .iter()
                .filter(|(nx, ny)| m.is_mine(*nx, *ny))
                .count() as u8;
            assert_eq!(m.mine_count_at(x, y), tally);
            match m.tile_at(x, y) {
                Tile::Mine => assert!(m.is_mine(x, y)),
                Tile::Empty => assert_eq!(tally, 0),
                Tile::MineNeighbor(n) => {
                    assert!(n >= 1 && n <= 8);
                    assert_eq!(n, tally);
                }
            }
        }
    }
}

#[test]
fn twenty_by_twenty_with_forty_mines() {
    let mut m = TileMap::create_empty(20, 20).unwrap();
    m.set_bombs(40).unwrap();
    let tiles = all_tiles(&m);
    assert_eq!(tiles.iter().filter(|t| **t == Tile::Mine).count(), 40);
    assert_eq!(
        tiles
            .iter()
            .filter(|t| matches!(t, Tile::Empty | Tile::MineNeighbor(_)))
            .count(),
        360
    );
    assert_eq!(m.bomb_count(), 40);
}

#[test]
fn generated_cells_match_their_neighbours() {
    for count in [0u32, 1, 7, 30, 63, 64] {
        let mut m = TileMap::create_empty(8, 8).unwrap();
        m.set_bombs(count).unwrap();
        assert_eq!(mine_total(&m), count as usize);
        assert_consistent(&m);
    }
}

#[test]
fn no_bombs_gives_an_empty_grid() {
    let mut m = TileMap::create_empty(5, 4).unwrap();
    m.set_bombs(0).unwrap();
    assert!(all_tiles(&m).iter().all(|t| *t == Tile::Empty));
}

#[test]
fn every_cell_a_bomb_gives_a_mined_grid() {
    let mut m = TileMap::create_empty(5, 4).unwrap();
    m.set_bombs(20).unwrap();
    assert!(all_tiles(&m).iter().all(|t| *t == Tile::Mine));
}

#[test]
fn zero_dimension_is_refused() {
    assert_eq!(TileMap::create_empty(0, 5).err(), Some(BoardError::InvalidDimensions));
    assert_eq!(TileMap::create_empty(5, 0).err(), Some(BoardError::InvalidDimensions));
}

#[test]
fn too_many_bombs_are_refused() {
    let mut m = TileMap::create_empty(3, 3).unwrap();
    assert_eq!(m.set_bombs(10), Err(BoardError::InvalidBombCount));
    assert!(all_tiles(&m).iter().all(|t| *t == Tile::Empty));
    assert_eq!(m.bomb_count(), 0);
}

#[test]
fn neighbour_counts_by_position() {
    let m = TileMap::create_empty(4, 3).unwrap();
    assert_eq!(m.neighbor_coordinates(0, 0).len(), 3);
    assert_eq!(m.neighbor_coordinates(3, 2).len(), 3);
    assert_eq!(m.neighbor_coordinates(1, 0).len(), 5);
    assert_eq!(m.neighbor_coordinates(0, 1).len(), 5);
    assert_eq!(m.neighbor_coordinates(1, 1).len(), 8);
    for y in 0..3u16 {
        for x in 0..4u16 {
            let n = m.neighbor_coordinates(x, y);
            assert!(n.len() <= 8);
            for (nx, ny) in n {
                assert!(nx < 4 && ny < 3);
                assert!((nx, ny) != (x, y));
                assert!((nx as i32 - x as i32).abs() <= 1 && (ny as i32 - y as i32).abs() <= 1);
            }
        }
    }
}

#[test]
fn neighbours_come_in_row_major_order() {
    let m = TileMap::create_empty(3, 3).unwrap();
    assert_eq!(
        m.neighbor_coordinates(1, 1),
        vec![(0, 0), (1, 0), (2, 0), (0, 1), (2, 1), (0, 2), (1, 2), (2, 2)]
    );
    assert_eq!(m.neighbor_coordinates(0, 0), vec![(1, 0), (0, 1), (1, 1)]);
}

#[test]
fn single_cell_grid_has_no_neighbours() {
    let m = TileMap::create_empty(1, 1).unwrap();
    assert!(m.neighbor_coordinates(0, 0).is_empty());
}

#[test]
fn picks_follow_the_draws() {
    assert_eq!(pick_cells(5, 2, &vec![3, 1]), vec![3, 2]);
    assert_eq!(pick_cells(6, 2, &vec![0, 0]), vec![0, 1]);
    assert_eq!(pick_cells(4, 4, &vec![9, 9, 9, 9]), vec![1, 0, 3, 2]);
}

#[test]
fn placement_from_fixed_draws() {
    let mut m = TileMap::create_empty(3, 2).unwrap();
    m.set_bombs_with(2, &vec![0, 0]).unwrap();
    assert_eq!(m.tile_at(0, 0), Tile::Mine);
    assert_eq!(m.tile_at(1, 0), Tile::Mine);
    assert_eq!(m.tile_at(2, 0), Tile::MineNeighbor(1));
    assert_eq!(m.tile_at(0, 1), Tile::MineNeighbor(2));
    assert_eq!(m.tile_at(1, 1), Tile::MineNeighbor(2));
    assert_eq!(m.tile_at(2, 1), Tile::MineNeighbor(1));
    assert_eq!(m.console_output(), "-----\n|221|\n|**1|\n-----");
}

#[test]
fn random_placements_differ() {
    let mut a = TileMap::create_empty(20, 20).unwrap();
    let mut b = TileMap::create_empty(20, 20).unwrap();
    a.set_bombs(40).unwrap();
    b.set_bombs(40).unwrap();
    assert_ne!(all_tiles(&a), all_tiles(&b));
}

#[test]
fn dump_of_an_empty_grid() {
    let m = TileMap::create_empty(2, 1).unwrap();
    assert_eq!(m.console_output(), "----\n|  |\n----");
}

#[test]
fn tile_texts() {
    assert_eq!(Tile::Mine.console_output(), "*");
    assert_eq!(Tile::Empty.console_output(), " ");
    assert_eq!(Tile::MineNeighbor(3).console_output(), "3");
    assert!(Tile::Mine.is_mine());
    assert!(!Tile::MineNeighbor(1).is_mine());
}

#[test]
fn count_colours() {
    assert_eq!(count_color(1), CountColor::White);
    assert_eq!(count_color(2), CountColor::Green);
    assert_eq!(count_color(3), CountColor::Yellow);
    assert_eq!(count_color(4), CountColor::Orange);
    assert_eq!(count_color(5), CountColor::Purple);
    assert_eq!(count_color(8), CountColor::Purple);
}

fn adaptive_options() -> BoardOptions {
    BoardOptions {
        map_size: (20, 20),
        bomb_count: 40,
        position: BoardPosition::Centered { offset: Point { x: 0, y: 0, z: 0 } },
        tile_size: TileSize::Adaptive { min: 10, max: 50 },
        tile_padding: 0,
    }
}

#[test]
fn adaptive_sizing_scenario() {
    let v = Viewport { width: 700, height: 800 };
    let l = compute_layout((20, 20), &v, &adaptive_options());
    assert_eq!(l.tile_size, 35);
    assert_eq!(l.board_size, (700, 700));
}

#[test]
fn adaptive_size_is_clamped() {
    let v = Viewport { width: 700, height: 800 };
    assert_eq!(adaptative_tile_size(&v, (10, 50), (5, 5)), 50);
    assert_eq!(adaptative_tile_size(&v, (10, 50), (100, 100)), 10);
    assert_eq!(adaptative_tile_size(&v, (10, 50), (30, 20)), 23);
}

#[test]
fn fixed_sizing_ignores_viewport() {
    let mut o = adaptive_options();
    o.tile_size = TileSize::Fixed(30);
    for (w, h) in [(700u32, 800u32), (1, 1), (5000, 100)] {
        let l = compute_layout((20, 10), &Viewport { width: w, height: h }, &o);
        assert_eq!(l.tile_size, 30);
        assert_eq!(l.board_size, (600, 300));
    }
}

#[test]
fn centered_anchor_without_offset() {
    let v = Viewport { width: 700, height: 800 };
    let l = compute_layout((20, 20), &v, &adaptive_options());
    assert_eq!(l.board_position, Anchor { x: -350, y: -350, z: 0 });
}

#[test]
fn centered_anchor_with_offset_and_custom_anchor() {
    let v = Viewport { width: 700, height: 800 };
    let mut o = adaptive_options();
    o.position = BoardPosition::Centered { offset: Point { x: 10, y: -20, z: 3 } };
    let l = compute_layout((20, 20), &v, &o);
    assert_eq!(l.board_position, Anchor { x: -340, y: -370, z: 3 });
    o.position = BoardPosition::Custom(Point { x: 7, y: 8, z: 9 });
    let l = compute_layout((20, 20), &v, &o);
    assert_eq!(l.board_position, Anchor { x: 7, y: 8, z: 9 });
}

#[test]
fn layout_is_repeatable() {
    let v = Viewport { width: 640, height: 480 };
    let o = adaptive_options();
    assert_eq!(compute_layout((13, 7), &v, &o), compute_layout((13, 7), &v, &o));
}

#[test]
fn default_options_values() {
    let o = BoardOptions::default();
    assert_eq!(o.map_size, (20, 20));
    assert_eq!(o.bomb_count, 40);
    assert_eq!(o.tile_padding, 0);
    assert_eq!(o.tile_size, TileSize::Adaptive { min: 10, max: 50 });
}

#[test]
fn create_board_with_defaults_and_viewport() {
    let b = create_board(None, Some(Viewport { width: 700, height: 800 })).unwrap();
    assert_eq!(b.tile_map.width(), 20);
    assert_eq!(b.tile_map.height(), 20);
    assert_eq!(mine_total(&b.tile_map), 40);
    let l = b.layout.unwrap();
    assert_eq!(l.tile_size, 35);
    assert_eq!(l.board_size, (700, 700));
}

#[test]
fn create_board_without_viewport_has_no_layout() {
    let b = create_board(Some(adaptive_options()), None).unwrap();
    assert!(b.layout.is_none());
    assert_consistent(&b.tile_map);
}

#[test]
fn create_board_errors() {
    let mut o = adaptive_options();
    o.map_size = (0, 4);
    assert_eq!(create_board(Some(o), None).err(), Some(BoardError::InvalidDimensions));
    o.map_size = (3, 3);
    o.bomb_count = 10;
    assert_eq!(create_board(Some(o), None).err(), Some(BoardError::InvalidBombCount));
}

#[test]
fn plugin_board_is_twenty_by_twenty_with_forty_mines() {
    let m = BoardPlugin::create_board();
    assert_eq!((m.width(), m.height()), (20, 20));
    assert_eq!(mine_total(&m), 40);
    assert_consistent(&m);
}

#[test]
fn fixed_draws_reproduce_the_grid() {
    let draws = vec![17, 4, 250, 3, 99, 0, 12];
    let mut a = TileMap::create_empty(9, 6).unwrap();
    let mut b = TileMap::create_empty(9, 6).unwrap();
    a.set_bombs_with(7, &draws).unwrap();
    b.set_bombs_with(7, &draws).unwrap();
    assert_eq!(all_tiles(&a), all_tiles(&b));
    assert_eq!(mine_total(&a), 7);
    assert_consistent(&a);
}
