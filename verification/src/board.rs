use vstd::prelude::*;
use crate::color::Color;
use crate::piece::Piece;

verus! {

/// What stands on a single square: nothing, or a piece of one side.
pub type SquareContent = Option<(Piece, Color)>;

/// The piece placement of a position: one entry per square, indexed as
/// `Square` counts, file first from a1 up to h8.
#[derive(Debug)]
pub struct ChessBoard {
    squares: Vec<SquareContent>,
}

impl Clone for ChessBoard {
    /// An exact copy: the clone holds the same placement.
    fn clone(&self) -> (r: Self)
        ensures
            r@ == self@,
    {
        proof {
            use_type_invariant(self);
        }
        let mut squares: Vec<SquareContent> = Vec::new();
        let mut i: usize = 0;
        while i < 64
            invariant
                i <= 64,
                self@.len() == 64,
                squares@.len() == i,
                forall|j: int| 0 <= j < i ==> squares@[j] == self@[j],
            decreases 64 - i,
        {
            squares.push(self.squares[i]);
            i = i + 1;
        }
        let r = ChessBoard { squares };
        proof {
            assert(r@ =~= self@);
        }
        r
    }
}

impl View for ChessBoard {
    type V = Seq<SquareContent>;

    closed spec fn view(&self) -> Seq<SquareContent> {
        self.squares@
    }
}

/// The piece of the standard starting position's home rank on the given
/// file, counted from 0 (the a-file) to 7 (the h-file).
pub open spec fn home_rank_piece(file: int) -> Piece {
    if file == 0 || file == 7 {
        Piece::Rook
    } else if file == 1 || file == 6 {
        Piece::Knight
    } else if file == 2 || file == 5 {
        Piece::Bishop
    } else if file == 3 {
        Piece::Queen
    } else {
        Piece::King
    }
}

/// What the standard starting position places on the square with the
/// given index.
pub open spec fn start_square(i: int) -> SquareContent {
    if i / 8 == 0 {
        Some((home_rank_piece(i % 8), Color::White))
    } else if i / 8 == 1 {
        Some((Piece::Pawn, Color::White))
    } else if i / 8 == 6 {
        Some((Piece::Pawn, Color::Black))
    } else if i / 8 == 7 {
        Some((home_rank_piece(i % 8), Color::Black))
    } else {
        None
    }
}

/// The piece placement of the standard starting position.
pub open spec fn start_board() -> Seq<SquareContent> {
    Seq::new(64, |i: int| start_square(i))
}

impl ChessBoard {
    #[verifier::type_invariant]
    spec fn type_inv(self) -> bool {
        self.squares@.len() == 64
    }

    /// A board with no pieces on it.
    pub fn empty() -> (r: ChessBoard)
        ensures
            r@.len() == 64,
            forall|i: int| 0 <= i < 64 ==> r@[i] is None,
    {
        let mut squares: Vec<SquareContent> = Vec::new();
        let mut i: usize = 0;
        while i < 64
            invariant
                i <= 64,
                squares@.len() == i,
                forall|j: int| 0 <= j < i ==> squares@[j] is None,
            decreases 64 - i,
        {
            squares.push(None);
            i = i + 1;
        }
        ChessBoard { squares }
    }

    /// The piece placement of the standard starting position.
    pub fn starting() -> (r: ChessBoard)
        ensures
            r@ == start_board(),
    {
        let mut squares: Vec<SquareContent> = Vec::new();
        let mut i: usize = 0;
        while i < 64
            invariant
                i <= 64,
                squares@.len() == i,
                forall|j: int| 0 <= j < i ==> squares@[j] == start_square(j),
            decreases 64 - i,
        {
            let rank = i / 8;
            let file = (i % 8) as u8;
            let content: SquareContent = if rank == 0 {
                Some((Self::home_piece(file), Color::White))
            } else if rank == 1 {
                Some((Piece::Pawn, Color::White))
            } else if rank == 6 {
                Some((Piece::Pawn, Color::Black))
            } else if rank == 7 {
                Some((Self::home_piece(file), Color::Black))
            } else {
                None
            };
            squares.push(content);
            i = i + 1;
        }
        let r = ChessBoard { squares };
        proof {
            assert(r@ =~= start_board());
        }
        r
    }

    fn home_piece(file: u8) -> (r: Piece)
        requires
            file < 8,
        ensures
            r == home_rank_piece(file as int),
    {
        if file == 0 || file == 7 {
            Piece::Rook
        } else if file == 1 || file == 6 {
            Piece::Knight
        } else if file == 2 || file == 5 {
            Piece::Bishop
        } else if file == 3 {
            Piece::Queen
        } else {
            Piece::King
        }
    }

    /// The number of squares: always 64.
    pub fn square_count(&self) -> (r: usize)
        ensures
            r == self@.len(),
            r == 64,
    {
        proof {
            use_type_invariant(self);
        }
        self.squares.len()
    }

    /// What stands on the square with the given index.
    pub fn get_piece_at(&self, square: u8) -> (r: SquareContent)
        requires
            square < 64,
        ensures
            r == self@[square as int],
    {
        proof {
            use_type_invariant(self);
        }
        self.squares[square as usize]
    }

    /// Puts the given content on the square with the given index,
    /// replacing what stood there.  Only the game state machine may move
    /// pieces; going around it would break the game's invariants.
    pub(crate) fn set_piece_at(&mut self, square: u8, content: SquareContent)
        requires
            square < 64,
        ensures
            final(self)@ == old(self)@.update(square as int, content),
    {
        proof {
            use_type_invariant(&*self);
        }
        self.squares[square as usize] = content;
    }
}

} // verus!
