use vstd::prelude::*;
use crate::board::{ChessBoard, SquareContent};
use crate::game::Game;
use crate::square::Square;
use crate::state::GameState;

verus! {

/// One capability shared by everything that holds a piece placement —
/// a bare board, a position snapshot, a whole game: what stands on a
/// square.  A renderer draws any of them through this interface.
pub trait ChessBoardTrait: Send + Sync {
    fn piece_color_at(&self, square: Square) -> SquareContent;
}

impl ChessBoardTrait for ChessBoard {
    fn piece_color_at(&self, square: Square) -> SquareContent {
        self.get_piece_at(square.get_value())
    }
}

impl ChessBoardTrait for GameState {
    fn piece_color_at(&self, square: Square) -> SquareContent {
        self.board.get_piece_at(square.get_value())
    }
}

impl ChessBoardTrait for Game {
    fn piece_color_at(&self, square: Square) -> SquareContent {
        self.board().get_piece_at(square.get_value())
    }
}

} // verus!
