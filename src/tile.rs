use vstd::prelude::*;

verus! {

/// One cell of the board.
#[derive(Clone, Copy, Debug, PartialEq, Eq, Structural)]
pub enum Tile {
    /// No mine here and none around.
    Empty,
    /// This cell holds a mine.
    Mine,
    /// No mine here; the payload is how many of the surrounding cells hold one.
    MineNeighbor(u8),
}

/// The character that stands for a digit `0..=9`.
pub open spec fn digit_char(d: int) -> char {
    if d == 0 { '0' }
    else if d == 1 { '1' }
    else if d == 2 { '2' }
    else if d == 3 { '3' }
    else if d == 4 { '4' }
    else if d == 5 { '5' }
    else if d == 6 { '6' }
    else if d == 7 { '7' }
    else if d == 8 { '8' }
    else { '9' }
}

/// The text a tile shows in a grid dump: `*` for a mine, a blank for an empty
/// cell, the count for a neighbour of mines (`+` for a count beyond one digit).
pub open spec fn tile_text(t: Tile) -> Seq<char> {
    match t {
        Tile::Empty => seq![' '],
        Tile::Mine => seq!['*'],
        Tile::MineNeighbor(n) => if n <= 9 { seq![digit_char(n as int)] } else { seq!['+'] },
    }
}

/// The colour in which a neighbour count is drawn.
#[derive(Clone, Copy, Debug, PartialEq, Eq, Structural)]
pub enum CountColor {
    White,
    Green,
    Yellow,
    Orange,
    Purple,
}

pub open spec fn spec_count_color(count: u8) -> CountColor {
    if count == 1 {
        CountColor::White
    } else if count == 2 {
        CountColor::Green
    } else if count == 3 {
        CountColor::Yellow
    } else if count == 4 {
        CountColor::Orange
    } else {
        CountColor::Purple
    }
}

/// Colour of the text that shows `count` neighbouring mines.
pub fn count_color(count: u8) -> (r: CountColor)
    ensures
        r == spec_count_color(count),
{
    match count {
        1 => CountColor::White,
        2 => CountColor::Green,
        3 => CountColor::Yellow,
        4 => CountColor::Orange,
        _ => CountColor::Purple,
    }
}

impl Tile {
    /// Whether the tile holds a mine.
    pub fn is_mine(&self) -> (r: bool)
        ensures
            r == (*self is Mine),
    {
        match self {
            Tile::Mine => true,
            _ => false,
        }
    }

    /// The one-character text of the tile in a grid dump.
    pub fn console_output(&self) -> (r: &'static str)
        ensures
            r@ == tile_text(*self),
    {
        proof {
            reveal_strlit(" ");
            reveal_strlit("*");
            reveal_strlit("+");
            reveal_strlit("0");
            reveal_strlit("1");
            reveal_strlit("2");
            reveal_strlit("3");
            reveal_strlit("4");
            reveal_strlit("5");
            reveal_strlit("6");
            reveal_strlit("7");
            reveal_strlit("8");
            reveal_strlit("9");
        }
        match self {
            Tile::Empty => " ",
            Tile::Mine => "*",
            Tile::MineNeighbor(n) => match *n {
                0 => "0",
                1 => "1",
                2 => "2",
                3 => "3",
                4 => "4",
                5 => "5",
                6 => "6",
                7 => "7",
                8 => "8",
                9 => "9",
                _ => "+",
            },
        }
    }
}

} // verus!
