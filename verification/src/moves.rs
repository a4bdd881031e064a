use vstd::prelude::*;
use crate::piece::Piece;
use crate::square::Square;

verus! {

/// The mathematical content of a move: origin and destination square
/// indices, and the piece a promoting pawn turns into.
pub ghost struct MoveView {
    pub from: int,
    pub to: int,
    pub promotion: Option<Piece>,
}

/// A move of one piece: origin, destination, and, for a promoting pawn,
/// the piece it turns into.  A move is identified by these three parts.
#[derive(Clone, Copy, Debug, PartialEq, Eq, Structural, Hash)]
pub struct Move {
    from: Square,
    to: Square,
    promotion: Option<Piece>,
}

impl View for Move {
    type V = MoveView;

    closed spec fn view(&self) -> MoveView {
        MoveView { from: self.from@, to: self.to@, promotion: self.promotion }
    }
}

impl Move {
    /// Builds a move from its three parts.
    pub fn new(from: Square, to: Square, promotion: Option<Piece>) -> (r: Move)
        ensures
            r@ == (MoveView { from: from@, to: to@, promotion }),
    {
        Move { from, to, promotion }
    }

    /// The index of the origin square.
    pub fn get_from(&self) -> (r: u8)
        ensures
            r == self@.from,
            r < 64,
    {
        self.from.get_value()
    }

    /// The index of the destination square.
    pub fn get_to(&self) -> (r: u8)
        ensures
            r == self@.to,
            r < 64,
    {
        self.to.get_value()
    }

    /// The origin square.
    pub fn from_square(&self) -> (r: Square)
        ensures
            r@ == self@.from,
    {
        self.from
    }

    /// The destination square.
    pub fn to_square(&self) -> (r: Square)
        ensures
            r@ == self@.to,
    {
        self.to
    }

    /// The piece a promoting pawn turns into; None for any other move.
    pub fn get_promotion(&self) -> (r: Option<Piece>)
        ensures
            r == self@.promotion,
    {
        self.promotion
    }
}

} // verus!
