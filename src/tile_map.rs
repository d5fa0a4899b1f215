use vstd::prelude::*;
use crate::tile::{tile_text, Tile};
use rand::Rng;

verus! {

/// Why a board could not be built.
#[derive(Clone, Copy, Debug, PartialEq, Eq, Structural)]
pub enum BoardError {
    /// A width or a height of zero.
    InvalidDimensions,
    /// More mines than cells.
    InvalidBombCount,
}

/// The offset of the `k`-th neighbour, in row-major order.
pub open spec fn offset(k: int) -> (int, int) {
    if k == 0 { (-1, -1) }
    else if k == 1 { (0, -1) }
    else if k == 2 { (1, -1) }
    else if k == 3 { (-1, 0) }
    else if k == 4 { (1, 0) }
    else if k == 5 { (-1, 1) }
    else if k == 6 { (0, 1) }
    else { (1, 1) }
}

/// Whether `(x, y)` lies on a `w` by `h` grid.
pub open spec fn in_bounds(x: int, y: int, w: int, h: int) -> bool {
    0 <= x < w && 0 <= y < h
}

/// The in-bounds neighbours of `(x, y)` among the first `k` offsets.
pub open spec fn neighbors_upto(x: int, y: int, w: int, h: int, k: int) -> Seq<(u16, u16)>
    decreases k,
{
    if k <= 0 {
        Seq::empty()
    } else {
        let prev = neighbors_upto(x, y, w, h, k - 1);
        let (dx, dy) = offset(k - 1);
        if in_bounds(x + dx, y + dy, w, h) {
            prev.push(((x + dx) as u16, (y + dy) as u16))
        } else {
            prev
        }
    }
}

/// The in-bounds neighbours of `(x, y)` on a `w` by `h` grid, in row-major offset order.
pub open spec fn neighbor_seq(x: int, y: int, w: int, h: int) -> Seq<(u16, u16)> {
    neighbors_upto(x, y, w, h, 8)
}

/// How many of `x - 1`, `x`, `x + 1` lie in `0..w`, for `x` in `0..w`.
pub open spec fn span(x: int, w: int) -> int {
    (if x > 0 { 1int } else { 0int }) + 1 + (if x + 1 < w { 1int } else { 0int })
}

/// `s` with the entries at `i` and `j` exchanged.
pub open spec fn swap_at(s: Seq<usize>, i: int, j: int) -> Seq<usize> {
    s.update(i, s[j]).update(j, s[i])
}

/// The position that step `i` of a shuffle of `n` entries exchanges with `i`,
/// for the draw `d`: one of `i..n`.
pub open spec fn draw_target(n: int, i: int, d: int) -> int {
    i + d % (n - i)
}

/// The order of the cells `0..n` after the first `k` steps of a Fisher-Yates
/// shuffle driven by `draws`.
pub open spec fn shuffle_steps(n: nat, draws: Seq<usize>, k: nat) -> Seq<usize>
    decreases k,
{
    if k == 0 {
        Seq::new(n, |i: int| i as usize)
    } else {
        let k1 = (k - 1) as nat;
        swap_at(shuffle_steps(n, draws, k1), k1 as int, draw_target(n as int, k1 as int, draws[k1 as int] as int))
    }
}

/// The `count` cells out of `n` that the draws pick: the first `count` after
/// `count` shuffle steps.
pub open spec fn picked_cells(n: nat, draws: Seq<usize>, count: nat) -> Seq<usize> {
    shuffle_steps(n, draws, count).take(count as int)
}

/// A line of `w + 2` dashes: the frame above and below a grid dump.
pub open spec fn frame_text(w: int) -> Seq<char> {
    Seq::new((w + 2) as nat, |i: int| '-')
}

/// The texts of the first `k` cells of row `y`.
pub open spec fn row_cells_text(m: GridView, y: int, k: int) -> Seq<char>
    decreases k,
{
    if k <= 0 {
        Seq::empty()
    } else {
        row_cells_text(m, y, k - 1) + tile_text(m.tile(k - 1, y))
    }
}

/// Row `y` of a grid dump, framed by bars.
pub open spec fn row_text(m: GridView, y: int) -> Seq<char> {
    seq!['|'] + row_cells_text(m, y, m.width) + seq!['|', '\n']
}

/// The first `k` rows of a grid dump, from the top row (`y = height - 1`) down.
pub open spec fn rows_text(m: GridView, k: int) -> Seq<char>
    decreases k,
{
    if k <= 0 {
        Seq::empty()
    } else {
        rows_text(m, k - 1) + row_text(m, m.height - k)
    }
}

/// The whole grid dump: a frame line, the rows from top to bottom, a frame line.
pub open spec fn dump_text(m: GridView) -> Seq<char> {
    frame_text(m.width) + seq!['\n'] + rows_text(m, m.height) + frame_text(m.width)
}

/// What a grid is, seen from outside: its size, the mine count it was
/// generated with, and its cells in row-major order (`y * width + x`).
pub ghost struct GridView {
    pub width: int,
    pub height: int,
    pub bomb_count: int,
    pub cells: Seq<Tile>,
}

impl GridView {
    pub open spec fn wf(self) -> bool {
        &&& 0 < self.width <= u16::MAX
        &&& 0 < self.height <= u16::MAX
        &&& self.cells.len() == self.width * self.height
    }

    pub open spec fn tile(self, x: int, y: int) -> Tile {
        self.cells[y * self.width + x]
    }

    pub open spec fn mine_at(self, x: int, y: int) -> bool {
        in_bounds(x, y, self.width, self.height) && self.tile(x, y) is Mine
    }

    /// The number of mines among the coordinates of `s`.
    pub open spec fn mines_in(self, s: Seq<(u16, u16)>) -> nat
        decreases s.len(),
    {
        if s.len() == 0 {
            0
        } else {
            self.mines_in(s.drop_last()) + if self.mine_at(s.last().0 as int, s.last().1 as int) {
                1nat
            } else {
                0nat
            }
        }
    }

    pub open spec fn neighbors(self, x: int, y: int) -> Seq<(u16, u16)> {
        neighbor_seq(x, y, self.width, self.height)
    }

    /// How many neighbours of `(x, y)` hold a mine.
    pub open spec fn neighbor_mines(self, x: int, y: int) -> nat {
        self.mines_in(self.neighbors(x, y))
    }

    /// What the cell at `(x, y)` must be, given where the mines are.
    pub open spec fn expected_tile(self, x: int, y: int) -> Tile {
        if self.mine_at(x, y) {
            Tile::Mine
        } else if self.neighbor_mines(x, y) == 0 {
            Tile::Empty
        } else {
            Tile::MineNeighbor(self.neighbor_mines(x, y) as u8)
        }
    }

    /// The indices of the cells that hold a mine.
    pub open spec fn mine_indices(self) -> Set<int> {
        Set::new(|i: int| 0 <= i < self.cells.len() && self.cells[i] is Mine)
    }

    /// Every cell agrees with the mines around it, and the mines number `bomb_count`.
    pub open spec fn is_generated(self) -> bool {
        &&& self.wf()
        &&& self.mine_indices().finite()
        &&& self.mine_indices().len() == self.bomb_count
        &&& forall|x: int, y: int|
            #![trigger self.tile(x, y)]
            in_bounds(x, y, self.width, self.height) ==> self.tile(x, y) == self.expected_tile(x, y)
    }
}

/// A `width` by `height` grid of tiles, stored row by row.
pub struct TileMap {
    width: u16,
    height: u16,
    bomb_count: u32,
    cells: Vec<Tile>,
}

impl View for TileMap {
    type V = GridView;

    closed spec fn view(&self) -> GridView {
        GridView {
            width: self.width as int,
            height: self.height as int,
            bomb_count: self.bomb_count as int,
            cells: self.cells@,
        }
    }
}

/// The cell `(x, y)` of a `w` by `h` grid has a row-major index inside the grid.
pub proof fn lemma_index_in_grid(x: int, y: int, w: int, h: int)
    requires
        in_bounds(x, y, w, h),
    ensures
        0 <= y * w + x < w * h,
        (y * w + x) % w == x,
        (y * w + x) / w == y,
{
    assert(0 <= y * w) by (nonlinear_arith)
        requires 0 <= y, 0 <= w;
    assert(y * w + x < w * h) by (nonlinear_arith)
        requires 0 <= x < w, 0 <= y < h;
    vstd::arithmetic::div_mod::lemma_fundamental_div_mod_converse(y * w + x, w, y, x);
}

fn offset_at(k: usize) -> (r: (i32, i32))
    requires
        k < 8,
    ensures
        r.0 == offset(k as int).0,
        r.1 == offset(k as int).1,
{
    match k {
        0 => (-1, -1),
        1 => (0, -1),
        2 => (1, -1),
        3 => (-1, 0),
        4 => (1, 0),
        5 => (-1, 1),
        6 => (0, 1),
        _ => (1, 1),
    }
}

impl TileMap {
    /// An all-empty grid of the given size.
    pub fn create_empty(width: u16, height: u16) -> (r: Result<TileMap, BoardError>)
        ensures
            r is Err <==> (width == 0 || height == 0),
            r is Err ==> r->Err_0 == BoardError::InvalidDimensions,
            r is Ok ==> {
                let m = r->Ok_0@;
                &&& m.wf()
                &&& m.width == width
                &&& m.height == height
                &&& m.bomb_count == 0
                &&& forall|i: int| 0 <= i < m.cells.len() ==> m.cells[i] == Tile::Empty
            },
    {
        if width == 0 || height == 0 {
            return Err(BoardError::InvalidDimensions);
        }
        assert((width as int) * (height as int) <= 0xffff * 0xffff) by (nonlinear_arith)
            requires width <= 0xffff, height <= 0xffff;
        let n: u32 = width as u32 * height as u32;
        let cells = empty_cells(n as usize);
        Ok(TileMap { width, height, bomb_count: 0, cells })
    }

    pub fn width(&self) -> (r: u16)
        ensures
            r == self@.width,
    {
        self.width
    }

    pub fn height(&self) -> (r: u16)
        ensures
            r == self@.height,
    {
        self.height
    }

    /// The number of mines the grid was generated with.
    pub fn bomb_count(&self) -> (r: u32)
        ensures
            r == self@.bomb_count,
    {
        self.bomb_count
    }

    /// The tile at `(x, y)`.
    pub fn tile_at(&self, x: u16, y: u16) -> (r: Tile)
        requires
            self@.wf(),
            in_bounds(x as int, y as int, self@.width, self@.height),
        ensures
            r == self@.tile(x as int, y as int),
    {
        proof {
            lemma_index_in_grid(x as int, y as int, self@.width, self@.height);
        }
        let len: usize = self.cells.len();
        assert((y as int) * self@.width + (x as int) < len);
        self.cells[y as usize * self.width as usize + x as usize]
    }

    /// Whether `(x, y)` holds a mine.
    pub fn is_mine(&self, x: u16, y: u16) -> (r: bool)
        requires
            self@.wf(),
            in_bounds(x as int, y as int, self@.width, self@.height),
        ensures
            r == self@.mine_at(x as int, y as int),
    {
        self.tile_at(x, y).is_mine()
    }

    /// The in-bounds cells around `(x, y)`, in row-major offset order.
    pub fn neighbor_coordinates(&self, x: u16, y: u16) -> (r: Vec<(u16, u16)>)
        requires
            self@.wf(),
            in_bounds(x as int, y as int, self@.width, self@.height),
        ensures
            r@ == self@.neighbors(x as int, y as int),
    {
        let mut r: Vec<(u16, u16)> = Vec::new();
        let mut k: usize = 0;
        while k < 8
            invariant
                k <= 8,
                self@.wf(),
                in_bounds(x as int, y as int, self@.width, self@.height),
                r@ == neighbors_upto(x as int, y as int, self@.width, self@.height, k as int),
            decreases 8 - k,
        {
            let (dx, dy) = offset_at(k);
            let nx: i32 = x as i32 + dx;
            let ny: i32 = y as i32 + dy;
            if 0 <= nx && nx < self.width as i32 && 0 <= ny && ny < self.height as i32 {
                r.push((nx as u16, ny as u16));
            }
            k = k + 1;
        }
        r
    }

    /// How many neighbours of `(x, y)` hold a mine.
    pub fn mine_count_at(&self, x: u16, y: u16) -> (r: u8)
        requires
            self@.wf(),
            in_bounds(x as int, y as int, self@.width, self@.height),
        ensures
            r == self@.neighbor_mines(x as int, y as int),
    {
        let nbrs = self.neighbor_coordinates(x, y);
        proof {
            lemma_neighbors_in_bounds(x as int, y as int, self@.width, self@.height);
        }
        let mut count: u8 = 0;
        let mut i: usize = 0;
        while i < nbrs.len()
            invariant
                self@.wf(),
                nbrs@ == self@.neighbors(x as int, y as int),
                nbrs@.len() <= 8,
                forall|j: int| 0 <= j < nbrs@.len() ==> in_bounds(nbrs@[j].0 as int, nbrs@[j].1 as int, self@.width, self@.height),
                i <= nbrs@.len(),
                count == self@.mines_in(nbrs@.subrange(0, i as int)),
                count <= i,
            decreases nbrs.len() - i,
        {
            let (nx, ny) = nbrs[i];
            assert(nbrs@.subrange(0, i as int + 1).drop_last() == nbrs@.subrange(0, i as int));
            if self.is_mine(nx, ny) {
                count = count + 1;
            }
            i = i + 1;
        }
        assert(nbrs@.subrange(0, i as int) == nbrs@);
        count
    }

    /// Lays `bomb_count` mines on the cells that `draws` pick (see
    /// `pick_cells`) and gives every other cell its neighbour count. Any
    /// earlier content of the grid is replaced.
    pub fn set_bombs_with(&mut self, bomb_count: u32, draws: &Vec<usize>) -> (r: Result<(), BoardError>)
        requires
            old(self)@.wf(),
            bomb_count <= draws@.len(),
        ensures
            r is Err <==> bomb_count > old(self)@.width * old(self)@.height,
            r is Err ==> r->Err_0 == BoardError::InvalidBombCount && final(self)@ == old(self)@,
            r is Ok ==> {
                let m = final(self)@;
                &&& m.is_generated()
                &&& m.width == old(self)@.width
                &&& m.height == old(self)@.height
                &&& m.bomb_count == bomb_count
                &&& forall|i: int| 0 <= i < m.cells.len() ==> (m.cells[i] is Mine <==> picked_cells(
                    m.cells.len(),
                    draws@,
                    bomb_count as nat,
                ).contains(i as usize))
            },
    {
        let n: usize = self.cells.len();
        if bomb_count as usize > n {
            return Err(BoardError::InvalidBombCount);
        }
        let count: usize = bomb_count as usize;
        let picks = pick_cells(n, count, draws);
        let mut cells = empty_cells(n);
        let mut k: usize = 0;
        while k < count
            invariant
                k <= count,
                picks@.len() == count,
                forall|m: int| 0 <= m < count ==> picks@[m] < n,
                cells@.len() == n,
                forall|i: int| 0 <= i < n ==> (cells@[i] is Mine || cells@[i] is Empty),
                forall|i: int| 0 <= i < n ==> (cells@[i] is Mine <==> exists|m: int| 0 <= m < k && picks@[m] == i),
            decreases count - k,
        {
            cells[picks[k]] = Tile::Mine;
            proof {
                assert forall|i: int| 0 <= i < n && (cells@[i] is Mine) implies exists|m: int| 0 <= m < k + 1 && picks@[m] == i by {
                    if i != picks@[k as int] {
                        let m = choose|m: int| 0 <= m < k && picks@[m] == i;
                    } else {
                        assert(picks@[k as int] == i);
                    }
                }
            }
            k = k + 1;
        }
        proof {
            let ghost pi = picks@.map_values(|p: usize| p as int);
            assert(pi.no_duplicates());
            pi.unique_seq_to_set();
            let ghost mines = Set::new(|i: int| 0 <= i < cells@.len() && cells@[i] is Mine);
            assert forall|i: int| mines.contains(i) <==> pi.to_set().contains(i) by {
                if mines.contains(i) {
                    let m = choose|m: int| 0 <= m < k && picks@[m] == i;
                    assert(pi[m] == i);
                }
                if pi.to_set().contains(i) {
                    let m = choose|m: int| 0 <= m < pi.len() && pi[m] == i;
                    assert(picks@[m] == i);
                }
            }
            assert(mines == pi.to_set());
            assert forall|i: int| 0 <= i < n implies (cells@[i] is Mine <==> picks@.contains(i as usize)) by {
                if cells@[i] is Mine {
                    let m = choose|m: int| 0 <= m < k && picks@[m] == i;
                    assert(picks@[m] == i as usize);
                }
            }
        }
        let ghost placed = cells@;
        self.cells = cells;
        self.bomb_count = bomb_count;
        self.fill_neighbor_counts();
        proof {
            let m = self@;
            assert(m.mine_indices() == Set::new(|i: int| 0 <= i < placed.len() && placed[i] is Mine));
        }
        Ok(())
    }

    /// Gives every cell that holds no mine its neighbour count; the mines stay.
    fn fill_neighbor_counts(&mut self)
        requires
            old(self)@.wf(),
            forall|i: int| 0 <= i < old(self)@.cells.len() ==> (old(self)@.cells[i] is Mine || old(self)@.cells[i] is Empty),
        ensures
            final(self)@.wf(),
            final(self)@.width == old(self)@.width,
            final(self)@.height == old(self)@.height,
            final(self)@.bomb_count == old(self)@.bomb_count,
            forall|i: int| 0 <= i < final(self)@.cells.len() ==> (final(self)@.cells[i] is Mine <==> old(self)@.cells[i] is Mine),
            forall|x: int, y: int| #![trigger final(self)@.tile(x, y)]
                in_bounds(x, y, final(self)@.width, final(self)@.height)
                    ==> final(self)@.tile(x, y) == old(self)@.expected_tile(x, y),
            forall|x: int, y: int| #![trigger final(self)@.tile(x, y)]
                in_bounds(x, y, final(self)@.width, final(self)@.height)
                    ==> final(self)@.tile(x, y) == final(self)@.expected_tile(x, y),
    {
        let ghost g = self@;
        let w: u16 = self.width;
        let h: u16 = self.height;
        let mut out: Vec<Tile> = Vec::new();
        let mut y: u16 = 0;
        while y < h
            invariant
                self@ == g,
                g.wf(),
                w == g.width,
                h == g.height,
                y <= h,
                out@.len() == y * w,
                forall|i: int| 0 <= i < out@.len() ==> #[trigger] out@[i] == g.expected_tile(i % (w as int), i / (w as int)),
            decreases h - y,
        {
            let mut x: u16 = 0;
            while x < w
                invariant
                    self@ == g,
                    g.wf(),
                    w == g.width,
                    h == g.height,
                    y < h,
                    x <= w,
                    out@.len() == y * w + x,
                    forall|i: int| 0 <= i < out@.len() ==> #[trigger] out@[i] == g.expected_tile(i % (w as int), i / (w as int)),
                decreases w - x,
            {
                proof {
                    lemma_index_in_grid(x as int, y as int, w as int, h as int);
                }
                let t = if self.is_mine(x, y) {
                    Tile::Mine
                } else {
                    let c: u8 = self.mine_count_at(x, y);
                    if c == 0 {
                        Tile::Empty
                    } else {
                        Tile::MineNeighbor(c)
                    }
                };
                out.push(t);
                x = x + 1;
            }
            assert((y as int + 1) * (w as int) == y as int * w as int + w as int) by (nonlinear_arith);
            y = y + 1;
        }
        assert((h as int) * (w as int) == (w as int) * (h as int)) by (nonlinear_arith);
        assert(out@.len() == g.cells.len());
        self.cells = out;
        proof {
            let f = self@;
            assert forall|x: int, y: int| in_bounds(x, y, w as int, h as int) implies f.tile(x, y) == g.expected_tile(x, y) by {
                lemma_index_in_grid(x, y, w as int, h as int);
            }
            assert forall|i: int| 0 <= i < f.cells.len() implies (f.cells[i] is Mine <==> g.cells[i] is Mine) by {
                let x = i % (w as int);
                let yy = i / (w as int);
                vstd::arithmetic::div_mod::lemma_fundamental_div_mod(i, w as int);
                assert(0 <= yy < h) by (nonlinear_arith)
                    requires
                        i == (w as int) * yy + x,
                        0 <= x < w,
                        0 <= i < (w as int) * (h as int),
                ;
                assert(yy * w + x == i) by (nonlinear_arith) requires i == (w as int) * yy + x;
                lemma_index_in_grid(x, yy, w as int, h as int);
            }
            assert forall|x: int, y: int| in_bounds(x, y, w as int, h as int) implies f.mine_at(x, y) == g.mine_at(x, y) by {
                lemma_index_in_grid(x, y, w as int, h as int);
            }
            assert forall|x: int, y: int| in_bounds(x, y, w as int, h as int) implies f.neighbor_mines(x, y) == g.neighbor_mines(x, y) by {
                lemma_mines_in_same(g, f, f.neighbors(x, y));
            }
        }
    }

    /// Lays `bomb_count` mines on cells drawn at random and gives every other
    /// cell its neighbour count. Any earlier content of the grid is replaced.
    pub fn set_bombs(&mut self, bomb_count: u32) -> (r: Result<(), BoardError>)
        requires
            old(self)@.wf(),
        ensures
            r is Err <==> bomb_count > old(self)@.width * old(self)@.height,
            r is Err ==> r->Err_0 == BoardError::InvalidBombCount && final(self)@ == old(self)@,
            r is Ok ==> {
                let m = final(self)@;
                &&& m.is_generated()
                &&& m.width == old(self)@.width
                &&& m.height == old(self)@.height
                &&& m.bomb_count == bomb_count
            },
    {
        let n: usize = self.cells.len();
        if bomb_count as usize > n {
            return Err(BoardError::InvalidBombCount);
        }
        let count: usize = bomb_count as usize;
        let mut draws: Vec<usize> = Vec::new();
        let mut i: usize = 0;
        while i < count
            invariant
                i <= count,
                count <= n,
                draws@.len() == i,
            decreases count - i,
        {
            draws.push(random_below(n - i));
            i = i + 1;
        }
        self.set_bombs_with(bomb_count, &draws)
    }

    /// A text picture of the grid, top row first: `*` for a mine, the count
    /// for a neighbour of mines, a blank for an empty cell, framed by bars
    /// and dashed lines.
    pub fn console_output(&self) -> (r: String)
        requires
            self@.wf(),
        ensures
            r@ == dump_text(self@),
    {
        proof {
            reveal_strlit("-");
            reveal_strlit("|");
            reveal_strlit("|\n");
            reveal_strlit("\n");
            assert("-"@ =~= seq!['-']);
            assert("|"@ =~= seq!['|']);
            assert("|\n"@ =~= seq!['|', '\n']);
            assert("\n"@ =~= seq!['\n']);
        }
        let w: u16 = self.width;
        let h: u16 = self.height;
        let mut frame = String::new();
        let mut i: u32 = 0;
        while i < w as u32 + 2
            invariant
                i <= w as u32 + 2,
                "-"@ == seq!['-'],
                frame@ == Seq::new(i as nat, |j: int| '-'),
            decreases w as u32 + 2 - i,
        {
            frame.append("-");
            assert(frame@ =~= Seq::new((i + 1) as nat, |j: int| '-'));
            i = i + 1;
        }
        let mut out = String::new();
        out.append(frame.as_str());
        out.append("\n");
        assert(out@ =~= frame_text(w as int) + seq!['\n'] + rows_text(self@, 0));
        let mut k: u16 = 0;
        while k < h
            invariant
                self@.wf(),
                w == self@.width,
                h == self@.height,
                k <= h,
                "|"@ == seq!['|'],
                "|\n"@ == seq!['|', '\n'],
                frame@ == frame_text(w as int),
                out@ == frame_text(w as int) + seq!['\n'] + rows_text(self@, k as int),
            decreases h - k,
        {
            let y: u16 = h - 1 - k;
            let ghost before = out@;
            out.append("|");
            assert(out@ =~= before + seq!['|'] + row_cells_text(self@, y as int, 0));
            let mut x: u16 = 0;
            while x < w
                invariant
                    self@.wf(),
                    w == self@.width,
                    h == self@.height,
                    y < h,
                    x <= w,
                    out@ == frame_text(w as int) + seq!['\n'] + rows_text(self@, k as int) + seq!['|']
                        + row_cells_text(self@, y as int, x as int),
                decreases w - x,
            {
                let t = self.tile_at(x, y);
                out.append(t.console_output());
                assert(out@ =~= frame_text(w as int) + seq!['\n'] + rows_text(self@, k as int) + seq!['|']
                    + row_cells_text(self@, y as int, x as int + 1));
                x = x + 1;
            }
            out.append("|\n");
            assert(out@ =~= frame_text(w as int) + seq!['\n'] + rows_text(self@, k as int + 1));
            k = k + 1;
        }
        out.append(frame.as_str());
        assert(out@ =~= dump_text(self@));
        out
    }
}

/// Relies on rand's `thread_rng().gen_range(0..bound)`: a value drawn from
/// `0..bound`. It panics on an empty range, which `requires` rules out.
#[verifier::external_body]
fn random_below(bound: usize) -> (r: usize)
    requires
        bound > 0,
    ensures
        r < bound,
{
    rand::thread_rng().gen_range(0..bound)
}

/// Two grids of one size with their mines in the same places count the same
/// mines among any coordinates.
proof fn lemma_mines_in_same(a: GridView, b: GridView, s: Seq<(u16, u16)>)
    requires
        a.width == b.width,
        a.height == b.height,
        forall|x: int, y: int| in_bounds(x, y, a.width, a.height) ==> a.mine_at(x, y) == b.mine_at(x, y),
    ensures
        a.mines_in(s) == b.mines_in(s),
    decreases s.len(),
{
    if s.len() > 0 {
        lemma_mines_in_same(a, b, s.drop_last());
    }
}

/// Picks `count` distinct cells out of `0..n` by a partial Fisher-Yates
/// shuffle; step `i` exchanges entry `i` with entry `i + draws[i] % (n - i)`.
pub fn pick_cells(n: usize, count: usize, draws: &Vec<usize>) -> (r: Vec<usize>)
    requires
        count <= n,
        count <= draws@.len(),
    ensures
        r@ == picked_cells(n as nat, draws@, count as nat),
        r@.len() == count,
        r@.no_duplicates(),
        forall|i: int| 0 <= i < r@.len() ==> r@[i] < n,
{
    let mut perm: Vec<usize> = Vec::new();
    let mut i: usize = 0;
    while i < n
        invariant
            i <= n,
            perm@ == Seq::new(i as nat, |j: int| j as usize),
        decreases n - i,
    {
        perm.push(i);
        i = i + 1;
    }
    assert(perm@ == shuffle_steps(n as nat, draws@, 0));
    let mut i: usize = 0;
    while i < count
        invariant
            i <= count,
            count <= n,
            count <= draws@.len(),
            perm@ == shuffle_steps(n as nat, draws@, i as nat),
            perm@.len() == n,
            perm@.no_duplicates(),
            forall|a: int| 0 <= a < n ==> perm@[a] < n,
        decreases count - i,
    {
        let j: usize = i + draws[i] % (n - i);
        let a: usize = perm[i];
        let b: usize = perm[j];
        perm[i] = b;
        perm[j] = a;
        proof {
            let prev = shuffle_steps(n as nat, draws@, i as nat);
            assert(perm@ == swap_at(prev, i as int, j as int));
            assert forall|p: int, q: int| 0 <= p < n && 0 <= q < n && p != q implies perm@[p] != perm@[q] by {
                assert(prev[p] != prev[q] || p == q);
            }
        }
        i = i + 1;
    }
    let mut r: Vec<usize> = Vec::new();
    let mut k: usize = 0;
    while k < count
        invariant
            k <= count,
            count <= n,
            perm@.len() == n,
            r@ == perm@.take(k as int),
        decreases count - k,
    {
        r.push(perm[k]);
        k = k + 1;
    }
    r
}

fn empty_cells(n: usize) -> (r: Vec<Tile>)
    ensures
        r@.len() == n,
        forall|i: int| 0 <= i < n ==> r@[i] == Tile::Empty,
{
    let mut r: Vec<Tile> = Vec::new();
    let mut i: usize = 0;
    while i < n
        invariant
            i <= n,
            r@.len() == i,
            forall|j: int| 0 <= j < i ==> r@[j] == Tile::Empty,
        decreases n - i,
    {
        r.push(Tile::Empty);
        i = i + 1;
    }
    r
}

/// The neighbours of an in-bounds cell among the first `k` offsets are in
/// bounds, adjacent to it, distinct from it, and at most `k` in number.
proof fn lemma_neighbors_upto(x: int, y: int, w: int, h: int, k: int)
    requires
        0 <= k <= 8,
        w <= u16::MAX,
        h <= u16::MAX,
    ensures
        neighbors_upto(x, y, w, h, k).len() <= k,
        forall|j: int| 0 <= j < neighbors_upto(x, y, w, h, k).len() ==> {
            let p = #[trigger] neighbors_upto(x, y, w, h, k)[j];
            &&& in_bounds(p.0 as int, p.1 as int, w, h)
            &&& -1 <= p.0 - x <= 1
            &&& -1 <= p.1 - y <= 1
            &&& (p.0 != x || p.1 != y)
        },
    decreases k,
{
    if k > 0 {
        lemma_neighbors_upto(x, y, w, h, k - 1);
        let prev = neighbors_upto(x, y, w, h, k - 1);
        let cur = neighbors_upto(x, y, w, h, k);
        assert forall|j: int| 0 <= j < prev.len() implies cur[j] == prev[j] by {}
    }
}

/// Every neighbour of a cell is in bounds, and there are at most eight.
pub proof fn lemma_neighbors_in_bounds(x: int, y: int, w: int, h: int)
    requires
        w <= u16::MAX,
        h <= u16::MAX,
    ensures
        neighbor_seq(x, y, w, h).len() <= 8,
        forall|j: int| 0 <= j < neighbor_seq(x, y, w, h).len() ==> {
            let p = #[trigger] neighbor_seq(x, y, w, h)[j];
            &&& in_bounds(p.0 as int, p.1 as int, w, h)
            &&& -1 <= p.0 - x <= 1
            &&& -1 <= p.1 - y <= 1
            &&& (p.0 != x || p.1 != y)
        },
{
    lemma_neighbors_upto(x, y, w, h, 8);
}


/// The mines counted among some coordinates are at most as many as the coordinates.
proof fn lemma_mines_in_bound(m: GridView, s: Seq<(u16, u16)>)
    ensures
        m.mines_in(s) <= s.len(),
    decreases s.len(),
{
    if s.len() > 0 {
        lemma_mines_in_bound(m, s.drop_last());
    }
}

/// On a grid without mines no coordinates hold any.
proof fn lemma_mines_in_none(m: GridView, s: Seq<(u16, u16)>)
    requires
        forall|x: int, y: int| !m.mine_at(x, y),
    ensures
        m.mines_in(s) == 0,
    decreases s.len(),
{
    if s.len() > 0 {
        lemma_mines_in_none(m, s.drop_last());
    }
}

/// Every neighbour of a cell lies on the grid, next to the cell and not on it;
/// a cell has `span(x) * span(y) - 1` of them: eight inside the grid, five
/// on an edge and three in a corner of a grid at least two cells wide and high.
pub proof fn lemma_neighbor_coordinates(x: int, y: int, w: int, h: int)
    requires
        in_bounds(x, y, w, h),
        w <= u16::MAX,
        h <= u16::MAX,
    ensures
        forall|j: int| 0 <= j < neighbor_seq(x, y, w, h).len() ==> {
            let p = #[trigger] neighbor_seq(x, y, w, h)[j];
            &&& in_bounds(p.0 as int, p.1 as int, w, h)
            &&& -1 <= p.0 - x <= 1
            &&& -1 <= p.1 - y <= 1
            &&& (p.0 != x || p.1 != y)
        },
        neighbor_seq(x, y, w, h).len() <= 8,
        neighbor_seq(x, y, w, h).len() == span(x, w) * span(y, h) - 1,
        (0 < x < w - 1 && 0 < y < h - 1) ==> neighbor_seq(x, y, w, h).len() == 8,
        (w >= 2 && h >= 2 && (x == 0 || x == w - 1) && (y == 0 || y == h - 1))
            ==> neighbor_seq(x, y, w, h).len() == 3,
        (w >= 2 && h >= 2 && (((x == 0 || x == w - 1) && 0 < y < h - 1) || ((y == 0 || y == h - 1) && 0 < x < w - 1)))
            ==> neighbor_seq(x, y, w, h).len() == 5,
{
    lemma_neighbors_in_bounds(x, y, w, h);
    reveal_with_fuel(neighbors_upto, 9);
    let sx = span(x, w);
    let sy = span(y, h);
    assert(neighbor_seq(x, y, w, h).len() == sx * sy - 1) by {
        if x > 0 && x + 1 < w {
            assert(sx == 3);
        } else if x > 0 || x + 1 < w {
            assert(sx == 2);
        } else {
            assert(sx == 1);
        }
        if y > 0 && y + 1 < h {
            assert(sy == 3);
        } else if y > 0 || y + 1 < h {
            assert(sy == 2);
        } else {
            assert(sy == 1);
        }
    }
}

/// On a generated grid each cell is a mine, an empty cell with no mine
/// around it, or a neighbour cell whose count, between one and eight, is the
/// number of mines around it.
pub proof fn lemma_generated_tiles(m: GridView, x: int, y: int)
    requires
        m.is_generated(),
        in_bounds(x, y, m.width, m.height),
    ensures
        m.tile(x, y) is Mine <==> m.mine_at(x, y),
        m.tile(x, y) is Empty <==> (!m.mine_at(x, y) && m.neighbor_mines(x, y) == 0),
        m.tile(x, y) is MineNeighbor <==> (!m.mine_at(x, y) && m.neighbor_mines(x, y) > 0),
        m.tile(x, y) is MineNeighbor ==> {
            let n = m.tile(x, y)->MineNeighbor_0;
            1 <= n <= 8 && n == m.neighbor_mines(x, y)
        },
{
    lemma_neighbors_in_bounds(x, y, m.width, m.height);
    lemma_mines_in_bound(m, m.neighbors(x, y));
    assert(m.tile(x, y) == m.expected_tile(x, y));
}

/// A generated grid is determined by its size and the places of its mines:
/// two generated grids that agree on both are the same grid.
pub proof fn lemma_mines_determine_grid(a: GridView, b: GridView)
    requires
        a.is_generated(),
        b.is_generated(),
        a.width == b.width,
        a.height == b.height,
        a.bomb_count == b.bomb_count,
        forall|i: int| 0 <= i < a.cells.len() ==> (a.cells[i] is Mine <==> b.cells[i] is Mine),
    ensures
        a == b,
{
    let w = a.width;
    let h = a.height;
    assert forall|x: int, y: int| in_bounds(x, y, w, h) implies a.mine_at(x, y) == b.mine_at(x, y) by {
        lemma_index_in_grid(x, y, w, h);
    }
    assert forall|i: int| 0 <= i < a.cells.len() implies a.cells[i] == b.cells[i] by {
        let x = i % w;
        let y = i / w;
        vstd::arithmetic::div_mod::lemma_fundamental_div_mod(i, w);
        assert(0 <= y < h) by (nonlinear_arith)
            requires
                i == w * y + x,
                0 <= x < w,
                0 <= i < w * h,
        ;
        assert(y * w + x == i) by (nonlinear_arith) requires i == w * y + x;
        lemma_mines_in_same(a, b, a.neighbors(x, y));
        assert(a.tile(x, y) == a.expected_tile(x, y));
        assert(b.tile(x, y) == b.expected_tile(x, y));
    }
    assert(a.cells =~= b.cells);
}

/// A grid generated with no mines is empty everywhere.
pub proof fn lemma_no_bombs_all_empty(m: GridView)
    requires
        m.is_generated(),
        m.bomb_count == 0,
    ensures
        forall|x: int, y: int| in_bounds(x, y, m.width, m.height) ==> #[trigger] m.tile(x, y) == Tile::Empty,
{
    assert(m.mine_indices() == Set::<int>::empty());
    assert forall|x: int, y: int| in_bounds(x, y, m.width, m.height) implies #[trigger] m.tile(x, y) == Tile::Empty by {
        assert forall|a: int, b: int| !m.mine_at(a, b) by {
            if m.mine_at(a, b) {
                lemma_index_in_grid(a, b, m.width, m.height);
                assert(m.mine_indices().contains(b * m.width + a));
            }
        }
        lemma_mines_in_none(m, m.neighbors(x, y));
        assert(m.tile(x, y) == m.expected_tile(x, y));
    }
}

/// A grid generated with as many mines as cells is mined everywhere.
pub proof fn lemma_all_bombs_all_mines(m: GridView)
    requires
        m.is_generated(),
        m.bomb_count == m.width * m.height,
    ensures
        forall|x: int, y: int| in_bounds(x, y, m.width, m.height) ==> #[trigger] m.tile(x, y) == Tile::Mine,
{
    let all = vstd::set_lib::set_int_range(0, m.cells.len() as int);
    vstd::set_lib::lemma_int_range(0, m.cells.len() as int);
    vstd::set_lib::lemma_subset_equality(m.mine_indices(), all);
    assert forall|x: int, y: int| in_bounds(x, y, m.width, m.height) implies #[trigger] m.tile(x, y) == Tile::Mine by {
        lemma_index_in_grid(x, y, m.width, m.height);
        assert(all.contains(y * m.width + x));
        assert(m.mine_indices().contains(y * m.width + x));
    }
}

} // verus!
