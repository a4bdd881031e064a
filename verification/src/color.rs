use vstd::prelude::*;

verus! {

/// The two sides of a chess game.
#[derive(Clone, Copy, Debug, PartialEq, Eq, Structural, Hash)]
pub enum Color {
    White,
    Black,
}

impl Color {
    /// The side this side plays against.
    pub open spec fn spec_opposite(self) -> Color {
        match self {
            Color::White => Color::Black,
            Color::Black => Color::White,
        }
    }

    /// The side this side plays against.
    pub fn opposite(&self) -> (r: Color)
        ensures
            r == self.spec_opposite(),
    {
        match self {
            Color::White => Color::Black,
            Color::Black => Color::White,
        }
    }

    /// Index used when a side selects an entry of a two-element table:
    /// White is 0, Black is 1.
    pub open spec fn spec_ordinal(self) -> u8 {
        match self {
            Color::White => 0u8,
            Color::Black => 1u8,
        }
    }

    /// Index used when a side selects an entry of a two-element table:
    /// White is 0, Black is 1.
    pub fn ordinal(&self) -> (r: u8)
        ensures
            r == self.spec_ordinal(),
    {
        match self {
            Color::White => 0u8,
            Color::Black => 1u8,
        }
    }

    /// The character naming the side in FEN notation: 'w' or 'b'.
    pub fn get_fen_char(&self) -> (r: char)
        ensures
            r == (if self == Color::White { 'w' } else { 'b' }),
    {
        match self {
            Color::White => 'w',
            Color::Black => 'b',
        }
    }
}

} // verus!
