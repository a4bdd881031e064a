use vstd::prelude::*;
use crate::board::{ChessBoard, SquareContent};
use crate::color::Color;
use crate::piece::Piece;
use crate::square::Square;

verus! {

/// Which castling moves are still available to each side.  A right is
/// lost as soon as the king, or the rook it would castle with, moves,
/// or that rook is captured.
#[derive(Clone, Copy, Debug, PartialEq, Eq, Structural)]
pub struct CastlingRights {
    pub white_king_side: bool,
    pub white_queen_side: bool,
    pub black_king_side: bool,
    pub black_queen_side: bool,
}

impl CastlingRights {
    /// The rights at the start of a game: all four available.
    pub fn initial() -> (r: CastlingRights)
        ensures
            r == (CastlingRights {
                white_king_side: true,
                white_queen_side: true,
                black_king_side: true,
                black_queen_side: true,
            }),
    {
        CastlingRights {
            white_king_side: true,
            white_queen_side: true,
            black_king_side: true,
            black_queen_side: true,
        }
    }

    /// Whether the given side may still castle on the king's side.
    pub open spec fn spec_king_side(self, c: Color) -> bool {
        if c == Color::White {
            self.white_king_side
        } else {
            self.black_king_side
        }
    }

    /// Whether the given side may still castle on the queen's side.
    pub open spec fn spec_queen_side(self, c: Color) -> bool {
        if c == Color::White {
            self.white_queen_side
        } else {
            self.black_queen_side
        }
    }
}

/// The mathematical content of a position: the placement, whose turn it
/// is, the remaining castling rights, the square a pawn may be captured
/// on in passing, and the count of half-moves since the last pawn move
/// or capture.
pub ghost struct PositionView {
    pub board: Seq<SquareContent>,
    pub turn: Color,
    pub castling: CastlingRights,
    pub en_passant: Option<int>,
    pub halfmove_clock: int,
}

/// A position snapshot: everything the rules need in order to decide
/// which moves are legal and how the game may end.  One snapshot is
/// appended to a game's history after every move.
#[derive(Debug)]
pub struct GameState {
    pub board: ChessBoard,
    pub turn: Color,
    pub castling: CastlingRights,
    pub en_passant: Option<Square>,
    pub halfmove_clock: u16,
    pub white_king: u8,
    pub black_king: u8,
}

impl View for GameState {
    type V = PositionView;

    open spec fn view(&self) -> PositionView {
        PositionView {
            board: self.board@,
            turn: self.turn,
            castling: self.castling,
            en_passant: match self.en_passant {
                Some(s) => Some(s@),
                None => None,
            },
            halfmove_clock: self.halfmove_clock as int,
        }
    }
}

impl Clone for GameState {
    /// An exact copy: the clone describes the same position.
    fn clone(&self) -> (r: Self)
        ensures
            r@ == self@,
            r.white_king == self.white_king,
            r.black_king == self.black_king,
    {
        GameState {
            board: self.board.clone(),
            turn: self.turn,
            castling: self.castling,
            en_passant: self.en_passant,
            halfmove_clock: self.halfmove_clock,
            white_king: self.white_king,
            black_king: self.black_king,
        }
    }
}

impl GameState {
    /// The cached king squares agree with the placement.  Everything else
    /// the rules assume of a position is stated on the view, in
    /// `position_wf`.
    pub open spec fn kings_cached(self) -> bool {
        &&& self.white_king < 64
        &&& self.black_king < 64
        &&& self@.board[self.white_king as int] == Some((Piece::King, Color::White))
        &&& self@.board[self.black_king as int] == Some((Piece::King, Color::Black))
    }

    /// A well-formed position snapshot.
    pub open spec fn wf(self) -> bool {
        &&& crate::rules::position_wf(self@)
        &&& self.kings_cached()
    }

    /// The placement of this position.
    pub fn board(&self) -> (r: &ChessBoard)
        ensures
            r@ == self@.board,
    {
        &self.board
    }

    /// The side to move in this position.
    pub fn side_to_move(&self) -> (r: Color)
        ensures
            r == self@.turn,
    {
        self.turn
    }

    /// The castling rights still available in this position.
    pub fn castling_rights(&self) -> (r: CastlingRights)
        ensures
            r == self@.castling,
    {
        self.castling
    }

    /// The square on which a pawn could be captured in passing, if the
    /// previous move was a double pawn push.
    pub fn en_passant_square(&self) -> (r: Option<Square>)
        ensures
            match r {
                Some(s) => self@.en_passant == Some(s@),
                None => self@.en_passant is None,
            },
    {
        self.en_passant
    }

    /// Half-moves played since the last pawn move or capture.
    pub fn halfmove_clock(&self) -> (r: u16)
        ensures
            r == self@.halfmove_clock,
    {
        self.halfmove_clock
    }

    /// What stands on the given square in this position.
    pub fn piece_color_at(&self, square: Square) -> (r: SquareContent)
        ensures
            r == self@.board[square@],
    {
        self.board.get_piece_at(square.get_value())
    }

    /// The square the given side's king is cached on.
    pub open spec fn king_square_spec(self, color: Color) -> int {
        if color == Color::White {
            self.white_king as int
        } else {
            self.black_king as int
        }
    }

    /// The square of the given side's king.
    pub fn king_square(&self, color: Color) -> (r: u8)
        requires
            self.kings_cached(),
        ensures
            r < 64,
            r == self.king_square_spec(color),
            self@.board[r as int] == Some((Piece::King, color)),
    {
        match color {
            Color::White => self.white_king,
            Color::Black => self.black_king,
        }
    }

    /// The snapshot of the standard starting position.
    pub fn initial() -> (r: GameState)
        ensures
            r@ == initial_position(),
            r.kings_cached(),
    {
        let r = GameState {
            board: ChessBoard::starting(),
            turn: Color::White,
            castling: CastlingRights::initial(),
            en_passant: None,
            halfmove_clock: 0,
            white_king: 4,
            black_king: 60,
        };
        r
    }
}

/// The standard starting position: White to move, all castling rights,
/// no pawn to be captured in passing, clocks at zero.
pub open spec fn initial_position() -> PositionView {
    PositionView {
        board: crate::board::start_board(),
        turn: Color::White,
        castling: CastlingRights {
            white_king_side: true,
            white_queen_side: true,
            black_king_side: true,
            black_queen_side: true,
        },
        en_passant: None,
        halfmove_clock: 0,
    }
}

} // verus!
