use vstd::prelude::*;
use crate::color::Color;
use crate::engine::Engine;
use crate::game::{normalized_promotion, Game, GameStatus};
use crate::pgn::PGNMetadata;
use crate::piece::Piece;
use crate::rules::{apply_move, move_legal, promotion_rank, rank_of};
use crate::square::Square;
use crate::state::PositionView;

verus! {

/// The promotion piece a drag-and-drop client passes along: the
/// preselected piece when its own pawn reaches its last rank, nothing
/// otherwise.
pub open spec fn chosen_promotion(
    pos: PositionView,
    from: int,
    to: int,
    preselected: Piece,
) -> Option<Piece> {
    match pos.board[from] {
        Some(pc) => {
            if pc.0 == Piece::Pawn && rank_of(to) == promotion_rank(pc.1) {
                Some(preselected)
            } else {
                None
            }
        },
        None => None,
    }
}

/// A match as the client holds it: the game itself plus how the user
/// plays it — the preselected promotion piece, the side the board is
/// drawn from, which side the user controls, and whether the view
/// follows the side to move.
#[derive(Debug)]
pub struct AppGame {
    pub game: Game,
    pub promotion_piece: Piece,
    pub perspective: Color,
    pub played_color: Option<Color>,
    pub auto_adjust_perspective: bool,
}

impl AppGame {
    /// The game inside keeps its invariants.
    pub open spec fn wf(self) -> bool {
        self.game.wf()
    }

    /// A fresh match: Queen preselected for promotion, seen from
    /// White's side, both sides playable, fixed perspective.
    pub fn new(engine: &Engine, pgn: PGNMetadata) -> (r: AppGame)
        ensures
            r.wf(),
            r.game@.pos == crate::state::initial_position(),
            r.game@.history.len() == 0,
            r.game@.pgn == pgn@,
            r.promotion_piece == Piece::Queen,
            r.perspective == Color::White,
            r.played_color is None,
            !r.auto_adjust_perspective,
    {
        AppGame {
            game: Game::new(engine, pgn),
            promotion_piece: Piece::Queen,
            perspective: Color::White,
            played_color: None,
            auto_adjust_perspective: false,
        }
    }

    /// Tries the dragged move: passes the preselected promotion piece
    /// along when the user's pawn reaches its last rank, and plays the
    /// move if the game is running and the move is legal.  On success
    /// the perspective follows the side to move if that is switched
    /// on; on failure nothing changes.  Dragging from an empty square
    /// plays nothing.
    pub fn try_play_move(&mut self, engine: &Engine, from: Square, to: Square) -> (r: bool)
        requires
            old(self).wf(),
        ensures
            final(self).wf(),
            r == (old(self).game@.status == GameStatus::Running && move_legal(
                old(self).game@.pos,
                from@,
                to@,
                normalized_promotion(
                    old(self).game@.pos,
                    from@,
                    to@,
                    chosen_promotion(old(self).game@.pos, from@, to@, old(self).promotion_piece),
                ),
            )),
            !r ==> *final(self) == *old(self),
            r ==> final(self).game@.pos == apply_move(
                old(self).game@.pos,
                from@,
                to@,
                normalized_promotion(
                    old(self).game@.pos,
                    from@,
                    to@,
                    chosen_promotion(old(self).game@.pos, from@, to@, old(self).promotion_piece),
                ),
            ),
            final(self).promotion_piece == old(self).promotion_piece,
            final(self).played_color == old(self).played_color,
            final(self).auto_adjust_perspective == old(self).auto_adjust_perspective,
            final(self).perspective == (if r && old(self).auto_adjust_perspective {
                final(self).game@.pos.turn
            } else {
                old(self).perspective
            }),
    {
        let move_promotion_piece: Option<Piece> = match self.game.board().get_piece_at(
            from.get_value(),
        ) {
            Some((moving_piece, moving_color)) => {
                if moving_piece == Piece::Pawn && to.is_promotion_square(moving_color) {
                    Some(self.promotion_piece)
                } else {
                    None
                }
            },
            None => None,
        };
        let success = self.game.play_move_from_to(engine, from, to, move_promotion_piece);
        if success && self.auto_adjust_perspective {
            self.adjust_perspective();
        }
        success
    }

    /// Whether the given side may be moved by the user: the game is
    /// running, and the user either controls that side or controls
    /// both.
    pub fn can_color_move(&self, color: Color) -> (r: bool)
        ensures
            r == (self.game@.status == GameStatus::Running && (self.played_color == Some(color)
                || self.played_color is None)),
    {
        if self.game.status() != GameStatus::Running {
            return false;
        }
        match self.played_color {
            Some(c) => c == color,
            None => true,
        }
    }

    /// Whether the perspective follows the side to move.
    pub fn get_auto_adjust_perspective(&self) -> (r: bool)
        ensures
            r == self.auto_adjust_perspective,
    {
        self.auto_adjust_perspective
    }

    /// Switches following the side to move on or off; switching it on
    /// aligns the perspective at once.
    pub fn set_auto_adjust_perspective(&mut self, auto_adjust_perspective: bool)
        ensures
            final(self).auto_adjust_perspective == auto_adjust_perspective,
            final(self).game == old(self).game,
            final(self).promotion_piece == old(self).promotion_piece,
            final(self).played_color == old(self).played_color,
            final(self).perspective == (if auto_adjust_perspective {
                old(self).game@.pos.turn
            } else {
                old(self).perspective
            }),
    {
        self.auto_adjust_perspective = auto_adjust_perspective;
        if auto_adjust_perspective {
            self.adjust_perspective();
        }
    }

    /// Turns the board to the side to move.
    fn adjust_perspective(&mut self)
        ensures
            *final(self) == (AppGame { perspective: old(self).game@.pos.turn, ..*old(self) }),
    {
        self.perspective = self.game.side_to_move();
    }
}

} // verus!
