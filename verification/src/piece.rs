use vstd::prelude::*;

verus! {

/// The six kinds of chess piece.
#[derive(Clone, Copy, Debug, PartialEq, Eq, Structural, Hash)]
pub enum Piece {
    Pawn,
    Knight,
    Bishop,
    Rook,
    Queen,
    King,
}

impl Piece {
    /// Index used when a piece selects an entry of a six-element table:
    /// Pawn is 0, Knight 1, Bishop 2, Rook 3, Queen 4, King 5.
    pub open spec fn spec_ordinal(self) -> u8 {
        match self {
            Piece::Pawn => 0u8,
            Piece::Knight => 1u8,
            Piece::Bishop => 2u8,
            Piece::Rook => 3u8,
            Piece::Queen => 4u8,
            Piece::King => 5u8,
        }
    }

    /// Index used when a piece selects an entry of a six-element table:
    /// Pawn is 0, Knight 1, Bishop 2, Rook 3, Queen 4, King 5.
    pub fn ordinal(&self) -> (r: u8)
        ensures
            r == self.spec_ordinal(),
    {
        match self {
            Piece::Pawn => 0u8,
            Piece::Knight => 1u8,
            Piece::Bishop => 2u8,
            Piece::Rook => 3u8,
            Piece::Queen => 4u8,
            Piece::King => 5u8,
        }
    }

    /// The lower-case English letter naming the piece, as used in asset
    /// names: 'p', 'n', 'b', 'r', 'q' or 'k'.
    pub fn get_char(&self) -> (r: char)
        ensures
            r == self.spec_char(),
    {
        match self {
            Piece::Pawn => 'p',
            Piece::Knight => 'n',
            Piece::Bishop => 'b',
            Piece::Rook => 'r',
            Piece::Queen => 'q',
            Piece::King => 'k',
        }
    }

    /// The lower-case English letter naming the piece.
    pub open spec fn spec_char(self) -> char {
        match self {
            Piece::Pawn => 'p',
            Piece::Knight => 'n',
            Piece::Bishop => 'b',
            Piece::Rook => 'r',
            Piece::Queen => 'q',
            Piece::King => 'k',
        }
    }

    /// Whether a pawn may promote to this piece: true exactly for Knight,
    /// Bishop, Rook and Queen.
    pub open spec fn spec_is_promotion_choice(self) -> bool {
        match self {
            Piece::Knight | Piece::Bishop | Piece::Rook | Piece::Queen => true,
            Piece::Pawn | Piece::King => false,
        }
    }

    /// Whether a pawn may promote to this piece: true exactly for Knight,
    /// Bishop, Rook and Queen.
    pub fn is_promotion_choice(&self) -> (r: bool)
        ensures
            r == self.spec_is_promotion_choice(),
    {
        match self {
            Piece::Knight | Piece::Bishop | Piece::Rook | Piece::Queen => true,
            Piece::Pawn | Piece::King => false,
        }
    }
}

} // verus!
