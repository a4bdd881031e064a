//! The per-match state machine: one `Game` owns a board, a move
//! history with position snapshots, a cached legal-move table and a
//! status.  Its only mutating entry point is `play_move_from_to`,
//! which either plays a fully legal move and recomputes everything, or
//! leaves the game untouched.

use vstd::prelude::*;
use crate::board::ChessBoard;
use crate::color::Color;
use crate::engine::Engine;
use crate::moves::{Move, MoveView};
use crate::pgn::{PGNMetadata, PgnView};
use crate::piece::Piece;
use crate::rules::{
    apply_move, check_threat, compute_apply, compute_in_check, compute_insufficient_material,
    compute_legal_map, compute_map_has_move, compute_move_legal, compute_same_position,
    compute_state_wf, dests_ok, has_legal_move, in_check, insufficient_material, is_king_square,
    is_promotion_move, lemma_apply_wf, lemma_initial_wf, move_legal, occurrence_count,
    position_wf, square_attacked_by, threat_has, threats_ok, unique_king,
};
use crate::square::Square;
use crate::state::{initial_position, GameState, PositionView};

verus! {

/// How a game stands.  Terminal once anything but `Running`.
#[derive(Clone, Copy, Debug, PartialEq, Eq, Structural, Hash)]
pub enum GameStatus {
    Running,
    Checkmate,
    Stalemate,
    Draw,
}

/// Which rule ended a drawn game.
#[derive(Clone, Copy, Debug, PartialEq, Eq, Structural, Hash)]
pub enum DrawReason {
    FiftyMoveRule,
    InsufficientMaterial,
    ThreefoldRepetition,
}

/// The mathematical content of a game: the current position, the
/// moves played so far with the position each one led to, the status,
/// and the PGN metadata.
pub ghost struct GameView {
    pub pos: PositionView,
    pub history: Seq<(MoveView, PositionView)>,
    pub status: GameStatus,
    pub pgn: PgnView,
}

/// Every position a game with this view has stood in: the start, then
/// one snapshot per move.
pub open spec fn view_past(g: GameView) -> Seq<PositionView> {
    seq![initial_position()] + g.history.map_values(|e: (MoveView, PositionView)| e.1)
}

/// The status that the rules dictate for a position, given the record
/// of every position the game has stood in (the current one last):
/// checkmate or stalemate when no legal move is left, else a draw by
/// the fifty-move rule, insufficient material or threefold
/// repetition, else running.
pub open spec fn spec_status(pos: PositionView, past: Seq<PositionView>) -> GameStatus {
    if !has_legal_move(pos) {
        if in_check(pos, pos.turn) {
            GameStatus::Checkmate
        } else {
            GameStatus::Stalemate
        }
    } else if pos.halfmove_clock >= 100 {
        GameStatus::Draw
    } else if insufficient_material(pos.board) {
        GameStatus::Draw
    } else if occurrence_count(past, pos, past.len() as int) >= 3 {
        GameStatus::Draw
    } else {
        GameStatus::Running
    }
}

/// The rule that drew the game, in the order `spec_status` tests
/// them; nothing when the game did not end in a draw.
pub open spec fn spec_draw_reason(pos: PositionView, past: Seq<PositionView>) -> Option<
    DrawReason,
> {
    if !has_legal_move(pos) {
        None
    } else if pos.halfmove_clock >= 100 {
        Some(DrawReason::FiftyMoveRule)
    } else if insufficient_material(pos.board) {
        Some(DrawReason::InsufficientMaterial)
    } else if occurrence_count(past, pos, past.len() as int) >= 3 {
        Some(DrawReason::ThreefoldRepetition)
    } else {
        None
    }
}

/// The side that won: the side that delivered checkmate, nobody
/// otherwise.
pub open spec fn spec_winner(g: GameView) -> Option<Color> {
    if g.status == GameStatus::Checkmate {
        Some(g.pos.turn.spec_opposite())
    } else {
        None
    }
}

/// The promotion piece the engine plays with: the caller's choice
/// where one was named, Queen for a promotion move left unnamed.
pub open spec fn normalized_promotion(
    pos: PositionView,
    from: int,
    to: int,
    given: Option<Piece>,
) -> Option<Piece> {
    if is_promotion_move(pos, from, to) && given is None {
        Some(Piece::Queen)
    } else {
        given
    }
}

/// One running match: the current position, the move history with a
/// snapshot after every move, the cached legal-move table for the side
/// to move, the status, and the PGN metadata.
#[derive(Debug)]
pub struct Game {
    state: GameState,
    history: Vec<(Move, GameState)>,
    legal_map: Vec<Vec<Square>>,
    status: GameStatus,
    pgn: PGNMetadata,
}

impl View for Game {
    type V = GameView;

    closed spec fn view(&self) -> GameView {
        GameView {
            pos: self.state@,
            history: self.history@.map_values(|e: (Move, GameState)| (e.0@, e.1@)),
            status: self.status,
            pgn: self.pgn@,
        }
    }
}

/// If a serialized game is exactly `gb`, where its i-th history
/// entry lies and what the game's invariants say about it.
proof fn lemma_game_entry_at(gb: Seq<u8>, g2: Game, i: int)
    requires
        g2.wf(),
        gb == ser_game(g2@),
        0 <= i < g2@.history.len(),
    ensures
        state_off(g2@) + 80 + 75 * i + 75 <= gb.len(),
        gb.subrange(
            state_off(g2@) + 80 + 75 * i,
            state_off(g2@) + 80 + 75 * i + 3,
        ) == crate::codec::ser_move(g2@.history[i].0),
        gb.subrange(
            state_off(g2@) + 80 + 75 * i + 3,
            state_off(g2@) + 80 + 75 * i + 75,
        ) == crate::codec::ser_state(g2@.history[i].1),
        crate::codec::move_encodable(g2@.history[i].0),
        crate::codec::state_encodable(g2@.history[i].1),
        position_wf(g2@.history[i].1),
{
    lemma_ser_game_layout(g2@);
    lemma_entries_len(g2@.history);
    lemma_entries_at(g2@.history, i);
    assert(75 * i + 75 <= 75 * g2@.history.len()) by (nonlinear_arith)
        requires
            i < g2@.history.len(),
    ;
    assert(75 * i >= 0) by (nonlinear_arith)
        requires
            i >= 0,
    ;
    crate::codec::lemma_sub_sub(
        gb,
        state_off(g2@) + 80,
        state_off(g2@) + 80 + 75 * g2@.history.len(),
        75 * i,
        75 * i + 3,
    );
    crate::codec::lemma_sub_sub(
        gb,
        state_off(g2@) + 80,
        state_off(g2@) + 80 + 75 * g2@.history.len(),
        75 * i + 3,
        75 * i + 75,
    );
    assert((#[trigger] g2.history@[i]).1.wf());
    assert(crate::codec::move_encodable(g2.history@[i].0@));
    assert(g2@.history[i] == (g2.history@[i].0@, g2.history@[i].1@));
}

impl Game {
    /// Everything the state machine keeps true between calls: the
    /// position and every snapshot are well-formed, the last snapshot
    /// is the current position (the start, before any move), the
    /// status and the legal-move table are those the rules dictate,
    /// and the half-move clock never passes the fifty-move bound.
    pub closed spec fn wf(self) -> bool {
        &&& self.state.wf()
        &&& self.state@.halfmove_clock <= 100
        &&& forall|i: int| 0 <= i < self.history@.len() ==> (#[trigger] self.history@[i]).1.wf()
        &&& forall|i: int|
            0 <= i < self.history@.len() ==> crate::codec::move_encodable(
                (#[trigger] self.history@[i]).0@,
            )
        &&& self.history@.len() > 0 ==> self.history@[self.history@.len() - 1].1@ == self.state@
        &&& self.history@.len() == 0 ==> self.state@ == initial_position()
        &&& self.status == spec_status(self.state@, view_past(self@))
        &&& self.legal_map@.len() == 64
        &&& forall|f: int|
            0 <= f < 64 ==> dests_ok(self.state@, f, (#[trigger] self.legal_map@[f])@)
    }

    /// A fresh match from the standard starting position.
    pub fn new(engine: &Engine, pgn: PGNMetadata) -> (r: Game)
        ensures
            r.wf(),
            r@.pos == initial_position(),
            r@.history.len() == 0,
            r@.status == spec_status(initial_position(), seq![initial_position()]),
            r@.pgn == pgn@,
    {
        proof {
            lemma_initial_wf();
        }
        let state = GameState::initial();
        let legal_map = compute_legal_map(engine, &state);
        let history: Vec<(Move, GameState)> = Vec::new();
        let status = compute_status(engine, &state, &history, &legal_map);
        let r = Game { state, history, legal_map, status, pgn };
        proof {
            assert(view_past(r@) =~= seq![initial_position()] + r.history@.map_values(
                |e: (Move, GameState)| e.1@,
            ));
        }
        r
    }

    /// The current placement.
    pub fn board(&self) -> (r: &ChessBoard)
        ensures
            r@ == self@.pos.board,
    {
        self.state.board()
    }

    /// The current position snapshot.
    pub fn current_state(&self) -> (r: &GameState)
        ensures
            r@ == self@.pos,
    {
        &self.state
    }

    /// The side to move.
    pub fn side_to_move(&self) -> (r: Color)
        ensures
            r == self@.pos.turn,
    {
        self.state.side_to_move()
    }

    /// The game's status.
    pub fn status(&self) -> (r: GameStatus)
        ensures
            r == self@.status,
    {
        self.status
    }

    /// The rule that drew the game, if a draw ended it.
    pub fn draw_reason(&self) -> (r: Option<DrawReason>)
        requires
            self.wf(),
        ensures
            r == spec_draw_reason(self@.pos, view_past(self@)),
    {
        let any = compute_map_has_move(&self.state, &self.legal_map);
        if !any {
            None
        } else if self.state.halfmove_clock() >= 100 {
            Some(DrawReason::FiftyMoveRule)
        } else if compute_insufficient_material(self.state.board()) {
            Some(DrawReason::InsufficientMaterial)
        } else {
            let reps = count_repetitions(&self.state, &self.history);
            proof {
                lemma_view_past(*self);
            }
            if reps >= 3 {
                Some(DrawReason::ThreefoldRepetition)
            } else {
                None
            }
        }
    }

    /// The winner: the side that delivered checkmate, nobody
    /// otherwise.
    pub fn winner(&self) -> (r: Option<Color>)
        ensures
            r == spec_winner(self@),
    {
        if self.status == GameStatus::Checkmate {
            Some(self.state.side_to_move().opposite())
        } else {
            None
        }
    }

    /// The PGN metadata the match was created with.
    pub fn pgn(&self) -> (r: &PGNMetadata)
        ensures
            r@ == self@.pgn,
    {
        &self.pgn
    }

    /// How many moves have been played.
    pub fn history_len(&self) -> (r: usize)
        ensures
            r == self@.history.len(),
    {
        self.history.len()
    }

    /// The i-th move played.
    pub fn move_at(&self, i: usize) -> (r: Move)
        requires
            i < self@.history.len(),
        ensures
            r@ == self@.history[i as int].0,
    {
        self.history[i].0
    }

    /// The position after the i-th move.
    pub fn state_at(&self, i: usize) -> (r: &GameState)
        requires
            i < self@.history.len(),
        ensures
            r@ == self@.history[i as int].1,
    {
        &self.history[i].1
    }

    /// The most recent move, or nothing before the first move.
    pub fn latest_move(&self) -> (r: Option<Move>)
        ensures
            match r {
                Some(m) => self@.history.len() > 0 && m@ == self@.history[self@.history.len()
                    - 1].0,
                None => self@.history.len() == 0,
            },
    {
        let n = self.history.len();
        if n > 0 {
            Some(self.history[n - 1].0)
        } else {
            None
        }
    }

    /// The legal destinations of the side to move, one ascending list
    /// per origin square: empty for an empty square, an opponent's
    /// piece, or a piece with no legal move.  The promotion piece
    /// defaults to Queen.
    pub fn legal_move_squares(&self) -> (r: &Vec<Vec<Square>>)
        requires
            self.wf(),
        ensures
            r@.len() == 64,
            forall|f: int| 0 <= f < 64 ==> dests_ok(self@.pos, f, (#[trigger] r@[f])@),
    {
        &self.legal_map
    }

    /// Every square whose piece currently gives check to the side to
    /// move's king, in ascending order; empty when not in check.
    pub fn get_check_threats(&self, engine: &Engine) -> (r: Vec<Square>)
        requires
            self.wf(),
        ensures
            threats_ok(self@.pos, r@),
    {
        let k = self.state.king_square(self.state.side_to_move());
        let opp = self.state.side_to_move().opposite();
        let mut v: Vec<Square> = Vec::new();
        let mut s: u8 = 0;
        while s < 64
            invariant
                self.wf(),
                s <= 64,
                k < 64,
                k as int == self.state.king_square_spec(self@.pos.turn),
                self@.pos.board[k as int] == Some((Piece::King, self@.pos.turn)),
                opp == self@.pos.turn.spec_opposite(),
                forall|j: int| 0 <= j < v@.len() ==> (#[trigger] v@[j])@ < s,
                forall|j1: int, j2: int|
                    0 <= j1 < j2 < v@.len() ==> (#[trigger] v@[j1])@ < (#[trigger] v@[j2])@,
                forall|j: int|
                    0 <= j < v@.len() ==> check_threat(self@.pos, (#[trigger] v@[j])@),
                forall|u: int|
                    0 <= u < s ==> #[trigger] threat_has(v@, u) == check_threat(self@.pos, u),
            decreases 64 - s,
        {
            let ghost old_v = v@;
            let hit = crate::rules::compute_attacked_by(engine, self.state.board(), k, opp, s);
            proof {
                if hit {
                    assert(is_king_square(self@.pos.board, self@.pos.turn, k as int));
                    assert(check_threat(self@.pos, s as int));
                } else {
                    if check_threat(self@.pos, s as int) {
                        let kk = choose|kk: int|
                            #[trigger] is_king_square(self@.pos.board, self@.pos.turn, kk)
                                && square_attacked_by(
                                self@.pos.board,
                                kk,
                                self@.pos.turn.spec_opposite(),
                                s as int,
                            );
                        assert(kk == k as int) by {
                            lemma_wf_unique_king(*self);
                        }
                        assert(false);
                    }
                }
            }
            if hit {
                v.push(Square::new(s));
            }
            proof {
                assert forall|u: int| 0 <= u < s + 1 implies #[trigger] threat_has(v@, u)
                    == check_threat(self@.pos, u) by {
                    if u < s {
                        if threat_has(old_v, u) {
                            let j = choose|j: int| 0 <= j < old_v.len() && old_v[j]@ == u;
                            assert(v@[j]@ == u);
                            assert(threat_has(v@, u));
                        }
                        if threat_has(v@, u) {
                            let j = choose|j: int| 0 <= j < v@.len() && v@[j]@ == u;
                            assert(j < old_v.len());
                            assert(threat_has(old_v, u));
                        }
                    } else {
                        if hit {
                            assert(v@[v@.len() - 1]@ == u);
                            assert(threat_has(v@, u));
                        } else {
                            if threat_has(v@, u) {
                                let j = choose|j: int| 0 <= j < v@.len() && v@[j]@ == u;
                                assert(v@[j]@ < s);
                                assert(false);
                            }
                        }
                    }
                }
            }
            s = s + 1;
        }
        v
    }

    /// Plays the move if it is fully legal and the game is running:
    /// the board changes (including the rook shift of castling, the
    /// pawn removed by an en-passant capture and the piece a promotion
    /// places), the move and the resulting position join the history,
    /// the other side gets the move and the status is recomputed — or
    /// nothing changes at all and the call reports false.  A promotion
    /// move with no piece named promotes to Queen.
    pub fn play_move_from_to(
        &mut self,
        engine: &Engine,
        from: Square,
        to: Square,
        promotion: Option<Piece>,
    ) -> (r: bool)
        requires
            old(self).wf(),
        ensures
            final(self).wf(),
            r == (old(self)@.status == GameStatus::Running && move_legal(
                old(self)@.pos,
                from@,
                to@,
                normalized_promotion(old(self)@.pos, from@, to@, promotion),
            )),
            !r ==> *final(self) == *old(self),
            r ==> final(self)@.pos == apply_move(
                old(self)@.pos,
                from@,
                to@,
                normalized_promotion(old(self)@.pos, from@, to@, promotion),
            ),
            r ==> final(self)@.history == old(self)@.history + seq![
                (
                    MoveView {
                        from: from@,
                        to: to@,
                        promotion: normalized_promotion(
                            old(self)@.pos,
                            from@,
                            to@,
                            promotion,
                        ),
                    },
                    final(self)@.pos,
                ),
            ],
            final(self)@.status == spec_status(final(self)@.pos, view_past(final(self)@)),
            final(self)@.pgn == old(self)@.pgn,
            !r ==> final(self)@.status == old(self)@.status,
    {
        proof {
            lemma_view_past(*self);
        }
        if self.status != GameStatus::Running {
            return false;
        }
        let f = from.get_value();
        let t = to.get_value();
        let promo = if promotion.is_none() {
            crate::rules::compute_default_promotion(&self.state, f, t)
        } else {
            promotion
        };
        proof {
            assert(promo == normalized_promotion(self.state@, f as int, t as int, promotion));
        }
        if !compute_move_legal(engine, &self.state, f, t, promo) {
            return false;
        }
        let ghost old_pos = self.state@;
        let new_state = compute_apply(&self.state, f, t, promo);
        proof {
            lemma_apply_wf(old_pos, f as int, t as int, promo);
        }
        let mv = Move::new(from, to, promo);
        let snapshot = new_state.clone();
        self.history.push((mv, snapshot));
        self.state = new_state;
        self.legal_map = compute_legal_map(engine, &self.state);
        self.status = compute_status(engine, &self.state, &self.history, &self.legal_map);
        proof {
            assert(self.state@.halfmove_clock <= 100) by {
                assert(spec_status(old_pos, view_past(old(self)@)) == GameStatus::Running);
                assert(old_pos.halfmove_clock < 100);
            }
            lemma_view_past(*self);
            assert(self@.history =~= old(self)@.history + seq![
                (
                    MoveView { from: from@, to: to@, promotion: promo },
                    self@.pos,
                ),
            ]);
        }
        true
    }
}

// ---------------------------------------------------------------------
// Persistence.
// ---------------------------------------------------------------------

/// Why a stored game was rejected.
#[derive(Clone, Copy, Debug, PartialEq, Eq, Structural, Hash)]
pub enum DeserializeError {
    /// The input ends before the format requires.
    Truncated,
    /// The input does not begin with the format tag this crate
    /// writes.
    UnsupportedFormat,
    /// A stored position breaks the rules' invariants, or the current
    /// position does not follow from the stored history.
    InvalidPosition,
    /// A stored move does not decode, or a history snapshot is
    /// malformed.
    InvalidHistory,
    /// Bytes follow the end of the stored game.
    TrailingBytes,
    /// The input decodes, but not to the bytes this crate would have
    /// written for the decoded game: it did not come from `serialize`.
    NonCanonical,
}

/// The bytes of the move history: each move followed by the position
/// it led to, 75 bytes per entry.
pub open spec fn ser_entries(h: Seq<(MoveView, PositionView)>) -> Seq<u8>
    decreases h.len(),
{
    if h.len() == 0 {
        Seq::empty()
    } else {
        ser_entries(h.drop_last()) + crate::codec::ser_move(h.last().0) + crate::codec::ser_state(
            h.last().1,
        )
    }
}

/// The bytes of a whole game: a format tag, the PGN metadata, the
/// current position, the history length, then the history.
pub open spec fn ser_game(g: GameView) -> Seq<u8> {
    seq![1u8] + crate::codec::ser_pgn(g.pgn) + crate::codec::ser_state(g.pos)
        + crate::codec::u64_le(g.history.len() as int) + ser_entries(g.history)
}

/// Where the current position starts inside `ser_game`: after the
/// tag and the PGN metadata.
pub open spec fn state_off(g: GameView) -> int {
    41 + g.pgn.event.len() + g.pgn.site.len() + g.pgn.white.len() + g.pgn.black.len() as int
}

proof fn lemma_entries_len(h: Seq<(MoveView, PositionView)>)
    ensures
        ser_entries(h).len() == 75 * h.len(),
    decreases h.len(),
{
    if h.len() == 0 {
    } else {
        lemma_entries_len(h.drop_last());
        assert(crate::codec::ser_state(h.last().1).len() == 72);
        assert(75 * h.len() == 75 * (h.len() - 1) + 75) by (nonlinear_arith);
    }
}

proof fn lemma_entries_at(h: Seq<(MoveView, PositionView)>, i: int)
    requires
        0 <= i < h.len(),
    ensures
        ser_entries(h).subrange(75 * i, 75 * i + 3) == crate::codec::ser_move(h[i].0),
        ser_entries(h).subrange(75 * i + 3, 75 * i + 75) == crate::codec::ser_state(h[i].1),
    decreases h.len(),
{
    lemma_entries_len(h);
    lemma_entries_len(h.drop_last());
    assert(75 * h.len() == 75 * (h.len() - 1) + 75) by (nonlinear_arith);
    if i == h.len() - 1 {
        assert(h[i] == h.last());
        assert(crate::codec::ser_move(h.last().0).len() == 3);
        assert(crate::codec::ser_state(h.last().1).len() == 72);
        assert(ser_entries(h).subrange(75 * i, 75 * i + 3) =~= crate::codec::ser_move(h[i].0));
        assert(ser_entries(h).subrange(75 * i + 3, 75 * i + 75) =~= crate::codec::ser_state(
            h[i].1,
        ));
    } else {
        lemma_entries_at(h.drop_last(), i);
        assert(75 * i + 75 <= 75 * (h.len() - 1)) by (nonlinear_arith)
            requires
                i <= h.len() - 2,
        ;
        assert(h.drop_last()[i] == h[i]);
        assert(ser_entries(h).subrange(75 * i, 75 * i + 3) =~= ser_entries(
            h.drop_last(),
        ).subrange(75 * i, 75 * i + 3));
        assert(ser_entries(h).subrange(75 * i + 3, 75 * i + 75) =~= ser_entries(
            h.drop_last(),
        ).subrange(75 * i + 3, 75 * i + 75));
    }
}

/// Where each part of a serialized game lies.
#[verifier::rlimit(100)]
proof fn lemma_ser_game_layout(g: GameView)
    ensures
        ser_game(g).len() == state_off(g) + 80 + 75 * g.history.len(),
        ser_game(g)[0] == 1u8,
        1 + crate::codec::pgn_ser_len(g.pgn) == state_off(g),
        ser_game(g).subrange(1, state_off(g)) == crate::codec::ser_pgn(g.pgn),
        ser_game(g).subrange(state_off(g), state_off(g) + 72) == crate::codec::ser_state(g.pos),
        ser_game(g).subrange(state_off(g) + 72, state_off(g) + 80) == crate::codec::u64_le(
            g.history.len() as int,
        ),
        ser_game(g).subrange(state_off(g) + 80, state_off(g) + 80 + 75 * g.history.len())
            == ser_entries(g.history),
{
    lemma_entries_len(g.history);
    let v = seq![1u8];
    let p = crate::codec::ser_pgn(g.pgn);
    let st = crate::codec::ser_state(g.pos);
    let cnt = crate::codec::u64_le(g.history.len() as int);
    let en = ser_entries(g.history);
    let t1 = v + p;
    let t2 = t1 + st;
    let t3 = t2 + cnt;
    let t4 = t3 + en;
    assert(ser_game(g) == t4);
    assert(st.len() == 72);
    crate::codec::lemma_cat_sub(v, p);
    crate::codec::lemma_cat_sub(t1, st);
    crate::codec::lemma_cat_sub(t2, cnt);
    crate::codec::lemma_cat_sub(t3, en);
    crate::codec::lemma_sub_sub(t4, 0, t3.len() as int, 0, t2.len() as int);
    crate::codec::lemma_sub_sub(t4, 0, t3.len() as int, t2.len() as int, t3.len() as int);
    crate::codec::lemma_sub_sub(t4, 0, t2.len() as int, 0, t1.len() as int);
    crate::codec::lemma_sub_sub(t4, 0, t2.len() as int, t1.len() as int, t2.len() as int);
    crate::codec::lemma_sub_sub(t4, 0, t1.len() as int, 1, t1.len() as int);
    assert(t4.subrange(0, t3.len() as int) == t3);
    assert(t4.subrange(0, t2.len() as int) == t2);
    assert(t4.subrange(0, t1.len() as int) == t1);
    assert(ser_game(g)[0] == 1u8);
}

/// If a serialized game is exactly `gb`, where each of its parts lies
/// and what the game's invariants say about them.
proof fn lemma_game_at(gb: Seq<u8>, g2: Game)
    requires
        g2.wf(),
        gb == ser_game(g2@),
    ensures
        gb.len() == state_off(g2@) + 80 + 75 * g2@.history.len(),
        gb[0] == 1u8,
        crate::codec::pgn_encodable(g2@.pgn),
        1 + crate::codec::pgn_ser_len(g2@.pgn) == state_off(g2@),
        gb.subrange(1, state_off(g2@)) == crate::codec::ser_pgn(g2@.pgn),
        crate::codec::state_encodable(g2@.pos),
        position_wf(g2@.pos),
        g2@.pos.halfmove_clock <= 100,
        gb.subrange(state_off(g2@), state_off(g2@) + 72) == crate::codec::ser_state(g2@.pos),
        gb.subrange(state_off(g2@) + 72, state_off(g2@) + 80) == crate::codec::u64_le(
            g2@.history.len() as int,
        ),
        g2@.history.len() < 0x1_0000_0000_0000_0000,
        forall|i: int|
            0 <= i < g2@.history.len() ==> gb.subrange(
                state_off(g2@) + 80 + 75 * i,
                state_off(g2@) + 80 + 75 * i + 3,
            ) == crate::codec::ser_move((#[trigger] g2@.history[i]).0),
        forall|i: int|
            0 <= i < g2@.history.len() ==> gb.subrange(
                state_off(g2@) + 80 + 75 * i + 3,
                state_off(g2@) + 80 + 75 * i + 75,
            ) == crate::codec::ser_state((#[trigger] g2@.history[i]).1),
        forall|i: int|
            0 <= i < g2@.history.len() ==> crate::codec::move_encodable(
                (#[trigger] g2@.history[i]).0,
            ) && crate::codec::state_encodable(g2@.history[i].1) && position_wf(
                g2@.history[i].1,
            ),
        g2@.history.len() > 0 ==> g2@.history[g2@.history.len() - 1].1 == g2@.pos,
        g2@.history.len() == 0 ==> g2@.pos == initial_position(),
        g2@.status == spec_status(g2@.pos, view_past(g2@)),
{
    lemma_ser_game_layout(g2@);
    lemma_entries_len(g2@.history);
    vstd::std_specs::vec::axiom_spec_len(&g2.history);
    assert forall|i: int| 0 <= i < g2@.history.len() implies gb.subrange(
        state_off(g2@) + 80 + 75 * i,
        state_off(g2@) + 80 + 75 * i + 3,
    ) == crate::codec::ser_move((#[trigger] g2@.history[i]).0) && gb.subrange(
        state_off(g2@) + 80 + 75 * i + 3,
        state_off(g2@) + 80 + 75 * i + 75,
    ) == crate::codec::ser_state(g2@.history[i].1) by {
        lemma_entries_at(g2@.history, i);
        assert(75 * i + 75 <= 75 * g2@.history.len()) by (nonlinear_arith)
            requires
                (i as int) < g2@.history.len(),
        ;
        assert(75 * i >= 0) by (nonlinear_arith)
            requires
                i >= 0,
        ;
        crate::codec::lemma_sub_sub(
            gb,
            state_off(g2@) + 80,
            state_off(g2@) + 80 + 75 * g2@.history.len(),
            75 * i,
            75 * i + 3,
        );
        crate::codec::lemma_sub_sub(
            gb,
            state_off(g2@) + 80,
            state_off(g2@) + 80 + 75 * g2@.history.len(),
            75 * i + 3,
            75 * i + 75,
        );
    }
    assert forall|i: int| 0 <= i < g2@.history.len() implies crate::codec::move_encodable(
        (#[trigger] g2@.history[i]).0,
    ) && crate::codec::state_encodable(g2@.history[i].1) && position_wf(g2@.history[i].1) by {
        assert((#[trigger] g2.history@[i]).1.wf());
        assert(crate::codec::move_encodable(g2.history@[i].0@));
        assert(g2@.history[i] == (g2.history@[i].0@, g2.history@[i].1@));
    }
}

impl Game {
    /// Writes the whole match to bytes: the format tag, the PGN
    /// metadata, the current position, then the move history with a
    /// snapshot after every move.  The status is not stored: it is
    /// recomputed from the rules on loading.
    #[verifier::rlimit(100)]
    pub fn serialize(&self) -> (r: Vec<u8>)
        requires
            self.wf(),
        ensures
            r@ == ser_game(self@),
    {
        let mut out: Vec<u8> = Vec::new();
        out.push(1u8);
        crate::codec::push_blob(&mut out, &self.pgn.event);
        crate::codec::push_blob(&mut out, &self.pgn.site);
        crate::codec::push_blob(&mut out, &self.pgn.white);
        crate::codec::push_blob(&mut out, &self.pgn.black);
        crate::codec::push_u64(&mut out, self.pgn.timestamp);
        crate::codec::push_state(&mut out, &self.state);
        crate::codec::push_u64(&mut out, self.history.len() as u64);
        let ghost pre = out@;
        let ghost h = self@.history;
        proof {
            assert(ser_entries(h.take(0)) =~= Seq::<u8>::empty());
            assert(out@ =~= pre + ser_entries(h.take(0)));
        }
        let mut i: usize = 0;
        while i < self.history.len()
            invariant
                self.wf(),
                i <= self.history@.len(),
                h == self@.history,
                h.len() == self.history@.len(),
                out@ == pre + ser_entries(h.take(i as int)),
            decreases self.history@.len() - i,
        {
            let entry = &self.history[i];
            proof {
                assert((#[trigger] self.history@[i as int]).1.wf());
                assert(h[i as int] == (self.history@[i as int].0@, self.history@[i as int].1@));
            }
            crate::codec::push_move(&mut out, &entry.0);
            crate::codec::push_state(&mut out, &entry.1);
            proof {
                assert(h.take(i + 1).drop_last() =~= h.take(i as int));
                assert(h.take(i + 1).last() == h[i as int]);
                assert(ser_entries(h.take(i + 1)) == ser_entries(h.take(i as int))
                    + crate::codec::ser_move(h[i as int].0) + crate::codec::ser_state(
                    h[i as int].1,
                ));
                assert(out@ =~= pre + ser_entries(h.take(i + 1)));
            }
            i = i + 1;
        }
        proof {
            assert(h.take(h.len() as int) =~= h);
            assert(out@ =~= ser_game(self@));
        }
        out
    }

    /// Reads one history entry at `pos`: a move and the validated
    /// position it led to.  Recovers exactly what the writer put
    /// there, for any well-formed entry.
    fn read_entry(engine: &Engine, bytes: &Vec<u8>, pos: usize) -> (r: Option<
        (Move, GameState, usize),
    >)
        ensures
            r matches Some(x) ==> pos + 75 <= bytes@.len() && x.2 == pos + 75 && x.1.wf()
                && crate::codec::move_encodable(x.0@),
            forall|m: MoveView, v: PositionView|
                (crate::codec::move_encodable(m) && crate::codec::state_encodable(v)
                    && position_wf(v) && pos + 75 <= bytes@.len() && bytes@.subrange(
                    pos as int,
                    pos as int + 3,
                ) == crate::codec::ser_move(m) && bytes@.subrange(
                    pos as int + 3,
                    pos as int + 75,
                ) == crate::codec::ser_state(v)) ==> (r matches Some(x) && x.0@ == m && x.1@
                    == v),
    {
        let ghost gb = bytes@;
        let mvp = match crate::codec::read_move(bytes, pos) {
            Some(x) => x,
            None => {
                return None;
            },
        };
        let mv = mvp.0;
        let snp = match crate::codec::read_state(bytes, pos + 3) {
            Some(x) => x,
            None => {
                return None;
            },
        };
        let mut sn = snp.0;
        let swk = match crate::rules::find_unique_king(&sn.board, Color::White) {
            Some(k) => k,
            None => {
                proof {
                    assert forall|m: MoveView, v: PositionView|
                        !(crate::codec::move_encodable(m) && crate::codec::state_encodable(v)
                            && position_wf(v) && pos + 75 <= gb.len() && gb.subrange(
                            pos as int,
                            pos as int + 3,
                        ) == crate::codec::ser_move(m) && gb.subrange(
                            pos as int + 3,
                            pos as int + 75,
                        ) == crate::codec::ser_state(v)) by {
                        if crate::codec::state_encodable(v) && position_wf(v) && pos + 75
                            <= gb.len() && gb.subrange(pos as int + 3, pos as int + 75)
                            == crate::codec::ser_state(v) {
                            assert(sn@ == v);
                        }
                    }
                }
                return None;
            },
        };
        let sbk = match crate::rules::find_unique_king(&sn.board, Color::Black) {
            Some(k) => k,
            None => {
                proof {
                    assert forall|m: MoveView, v: PositionView|
                        !(crate::codec::move_encodable(m) && crate::codec::state_encodable(v)
                            && position_wf(v) && pos + 75 <= gb.len() && gb.subrange(
                            pos as int,
                            pos as int + 3,
                        ) == crate::codec::ser_move(m) && gb.subrange(
                            pos as int + 3,
                            pos as int + 75,
                        ) == crate::codec::ser_state(v)) by {
                        if crate::codec::state_encodable(v) && position_wf(v) && pos + 75
                            <= gb.len() && gb.subrange(pos as int + 3, pos as int + 75)
                            == crate::codec::ser_state(v) {
                            assert(sn@ == v);
                        }
                    }
                }
                return None;
            },
        };
        sn.white_king = swk;
        sn.black_king = sbk;
        if !crate::rules::compute_state_wf(engine, &sn) {
            proof {
                assert forall|m: MoveView, v: PositionView|
                    !(crate::codec::move_encodable(m) && crate::codec::state_encodable(v)
                        && position_wf(v) && pos + 75 <= gb.len() && gb.subrange(
                        pos as int,
                        pos as int + 3,
                    ) == crate::codec::ser_move(m) && gb.subrange(
                        pos as int + 3,
                        pos as int + 75,
                    ) == crate::codec::ser_state(v)) by {
                    if crate::codec::state_encodable(v) && position_wf(v) && pos + 75 <= gb.len()
                        && gb.subrange(pos as int + 3, pos as int + 75)
                        == crate::codec::ser_state(v) {
                        assert(sn@ == v);
                        assert(sn.kings_cached());
                        assert(sn.wf());
                    }
                }
            }
            return None;
        }
        Some((mv, sn, pos + 75))
    }

    /// Reads a match back from bytes.  The two clauses together make
    /// deserialization exact: any byte string `serialize` produced
    /// comes back as a game observationally identical to the one
    /// serialized — the round-trip law — and nothing else is ever
    /// accepted, because an accepted game re-serializes to the very
    /// input.  A malformed input is rejected with an error, never a
    /// panic: every stored position is validated against the rules'
    /// invariants before the game is accepted.
    #[verifier::rlimit(100)]
    pub fn deserialize(engine: &Engine, bytes: &Vec<u8>) -> (r: Result<Game, DeserializeError>)
        ensures
            r matches Ok(g) ==> g.wf() && bytes@ == ser_game(g@),
            forall|g2: Game|
                (g2.wf() && bytes@ == ser_game(g2@)) ==> (r matches Ok(g) && g@ == g2@),
    {
        let ghost gb = bytes@;
        if bytes.len() == 0 {
            proof {
                assert forall|g2: Game| !(g2.wf() && gb == ser_game(g2@)) by {
                    if g2.wf() && gb == ser_game(g2@) {
                        lemma_game_at(gb, g2);
                    }
                }
            }
            return Err(DeserializeError::Truncated);
        }
        let tag = bytes[0];
        if tag != 1 {
            proof {
                assert forall|g2: Game| !(g2.wf() && gb == ser_game(g2@)) by {
                    if g2.wf() && gb == ser_game(g2@) {
                        lemma_game_at(gb, g2);
                    }
                }
            }
            return Err(DeserializeError::UnsupportedFormat);
        }
        let mp = match crate::codec::read_pgn(bytes, 1) {
            Some(x) => x,
            None => {
                proof {
                    assert forall|g2: Game| !(g2.wf() && gb == ser_game(g2@)) by {
                        if g2.wf() && gb == ser_game(g2@) {
                            lemma_game_at(gb, g2);
                        }
                    }
                }
                return Err(DeserializeError::Truncated);
            },
        };
        let meta = mp.0;
        let pos1 = mp.1;
        let sp = match crate::codec::read_state(bytes, pos1) {
            Some(x) => x,
            None => {
                proof {
                    assert forall|g2: Game| !(g2.wf() && gb == ser_game(g2@)) by {
                        if g2.wf() && gb == ser_game(g2@) {
                            lemma_game_at(gb, g2);
                            assert(pos1 == state_off(g2@));
                        }
                    }
                }
                return Err(DeserializeError::Truncated);
            },
        };
        let mut st0 = sp.0;
        let pos2 = sp.1;
        let wk = match crate::rules::find_unique_king(&st0.board, Color::White) {
            Some(k) => k,
            None => {
                proof {
                    assert forall|g2: Game| !(g2.wf() && gb == ser_game(g2@)) by {
                        if g2.wf() && gb == ser_game(g2@) {
                            lemma_game_at(gb, g2);
                            assert(pos1 == state_off(g2@));
                            assert(st0@ == g2@.pos);
                        }
                    }
                }
                return Err(DeserializeError::InvalidPosition);
            },
        };
        let bk = match crate::rules::find_unique_king(&st0.board, Color::Black) {
            Some(k) => k,
            None => {
                proof {
                    assert forall|g2: Game| !(g2.wf() && gb == ser_game(g2@)) by {
                        if g2.wf() && gb == ser_game(g2@) {
                            lemma_game_at(gb, g2);
                            assert(pos1 == state_off(g2@));
                            assert(st0@ == g2@.pos);
                        }
                    }
                }
                return Err(DeserializeError::InvalidPosition);
            },
        };
        st0.white_king = wk;
        st0.black_king = bk;
        if !crate::rules::compute_state_wf(engine, &st0) {
            proof {
                assert forall|g2: Game| !(g2.wf() && gb == ser_game(g2@)) by {
                    if g2.wf() && gb == ser_game(g2@) {
                        lemma_game_at(gb, g2);
                        assert(pos1 == state_off(g2@));
                        assert(st0@ == g2@.pos);
                        assert(st0.kings_cached());
                        assert(st0.wf());
                    }
                }
            }
            return Err(DeserializeError::InvalidPosition);
        }
        if st0.halfmove_clock > 100 {
            proof {
                assert forall|g2: Game| !(g2.wf() && gb == ser_game(g2@)) by {
                    if g2.wf() && gb == ser_game(g2@) {
                        lemma_game_at(gb, g2);
                        assert(pos1 == state_off(g2@));
                        assert(st0@ == g2@.pos);
                    }
                }
            }
            return Err(DeserializeError::InvalidPosition);
        }
        let cp = match crate::codec::read_u64(bytes, pos2) {
            Some(x) => x,
            None => {
                proof {
                    assert forall|g2: Game| !(g2.wf() && gb == ser_game(g2@)) by {
                        if g2.wf() && gb == ser_game(g2@) {
                            lemma_game_at(gb, g2);
                            assert(pos1 == state_off(g2@));
                            assert(pos2 == state_off(g2@) + 72);
                        }
                    }
                }
                return Err(DeserializeError::Truncated);
            },
        };
        let count = cp.0;
        let mut pos: usize = cp.1;
        let mut parsed: Vec<(Move, GameState)> = Vec::new();
        let mut i: u64 = 0;
        proof {
            assert forall|g2: Game|
                (g2.wf() && gb == ser_game(g2@)) implies (count as int == g2@.history.len()
                && pos as int == state_off(g2@) + 80 && st0@ == g2@.pos && meta@
                == g2@.pgn) by {
                lemma_game_at(gb, g2);
                assert(pos1 == state_off(g2@));
                assert(pos2 == state_off(g2@) + 72);
            }
        }
        while i < count
            invariant
                gb == bytes@,
                i <= count,
                parsed@.len() == i,
                pos <= bytes@.len(),
                forall|j: int| 0 <= j < parsed@.len() ==> (#[trigger] parsed@[j]).1.wf(),
                forall|j: int|
                    0 <= j < parsed@.len() ==> crate::codec::move_encodable(
                        (#[trigger] parsed@[j]).0@,
                    ),
                forall|g2: Game|
                    (g2.wf() && gb == ser_game(g2@)) ==> (count as int == g2@.history.len()
                        && pos as int == state_off(g2@) + 80 + 75 * (i as int) && st0@
                        == g2@.pos && meta@ == g2@.pgn && parsed@.map_values(
                        |e: (Move, GameState)| (e.0@, e.1@),
                    ) == g2@.history.take(i as int)),
            decreases count - i,
        {
            let ep = match Self::read_entry(engine, bytes, pos) {
                Some(x) => x,
                None => {
                    proof {
                        assert forall|g2: Game| !(g2.wf() && gb == ser_game(g2@)) by {
                            if g2.wf() && gb == ser_game(g2@) {
                                lemma_game_entry_at(gb, g2, i as int);
                            }
                        }
                    }
                    return Err(DeserializeError::InvalidHistory);
                },
            };
            let mv = ep.0;
            let sn = ep.1;
            let ghost old_parsed = parsed@;
            parsed.push((mv, sn));
            proof {
                assert forall|g2: Game|
                    (g2.wf() && gb == ser_game(g2@)) implies (ep.2 as int == state_off(g2@)
                    + 80 + 75 * (i as int + 1) && parsed@.map_values(
                    |e: (Move, GameState)| (e.0@, e.1@),
                ) == g2@.history.take(i as int + 1)) by {
                    lemma_game_entry_at(gb, g2, i as int);
                    assert(mv@ == g2@.history[i as int].0);
                    assert(sn@ == g2@.history[i as int].1);
                    assert(old_parsed.map_values(|e: (Move, GameState)| (e.0@, e.1@))
                        == g2@.history.take(i as int));
                    assert(parsed@.map_values(|e: (Move, GameState)| (e.0@, e.1@))
                        =~= g2@.history.take(i as int + 1));
                }
            }
            pos = ep.2;
            i = i + 1;
        }
        if pos != bytes.len() {
            proof {
                assert forall|g2: Game| !(g2.wf() && gb == ser_game(g2@)) by {
                    if g2.wf() && gb == ser_game(g2@) {
                        lemma_game_at(gb, g2);
                    }
                }
            }
            return Err(DeserializeError::TrailingBytes);
        }
        let linked = if parsed.len() == 0 {
            let initial = GameState::initial();
            crate::rules::compute_states_equal(&st0, &initial)
        } else {
            crate::rules::compute_states_equal(&st0, &parsed[parsed.len() - 1].1)
        };
        if !linked {
            proof {
                assert forall|g2: Game| !(g2.wf() && gb == ser_game(g2@)) by {
                    if g2.wf() && gb == ser_game(g2@) {
                        lemma_game_at(gb, g2);
                        assert(parsed@.map_values(|e: (Move, GameState)| (e.0@, e.1@))
                            == g2@.history.take(count as int));
                        assert(g2@.history.take(count as int) =~= g2@.history);
                        if g2@.history.len() > 0 {
                            assert(parsed@[parsed@.len() - 1].1@ == g2@.history[g2@.history.len()
                                - 1].1);
                        }
                    }
                }
            }
            return Err(DeserializeError::InvalidPosition);
        }
        let legal_map = compute_legal_map(engine, &st0);
        let status = compute_status(engine, &st0, &parsed, &legal_map);
        let game = Game { state: st0, history: parsed, legal_map, status, pgn: meta };
        proof {
            lemma_view_past(game);
            assert(game.wf());
            assert forall|g2: Game|
                (g2.wf() && gb == ser_game(g2@)) implies game@ == g2@ by {
                lemma_game_at(gb, g2);
                assert(game@.history == g2@.history.take(count as int));
                assert(g2@.history.take(count as int) =~= g2@.history);
                lemma_view_past(g2);
                assert(view_past(game@) == view_past(g2@));
                assert(game@.status == g2@.status);
                assert(game@ == g2@);
            }
        }
        let reserialized = game.serialize();
        if !crate::codec::bytes_equal(bytes, &reserialized) {
            proof {
                assert forall|g2: Game| !(g2.wf() && gb == ser_game(g2@)) by {
                    if g2.wf() && gb == ser_game(g2@) {
                        assert(game@ == g2@);
                        assert(reserialized@ == ser_game(g2@));
                    }
                }
            }
            return Err(DeserializeError::NonCanonical);
        }
        Ok(game)
    }
}

/// A square holding no piece of the side to move offers no move: the
/// destination lists of `legal_move_squares` are empty for an empty
/// square and for an opponent's piece.
pub proof fn lemma_no_moves_from_foreign_squares(pos: PositionView, f: int, dests: Seq<Square>)
    requires
        dests_ok(pos, f, dests),
        0 <= f < 64,
        !(pos.board[f] matches Some(pc) && pc.1 == pos.turn),
    ensures
        dests.len() == 0,
{
    if dests.len() > 0 {
        assert(move_legal(pos, f, dests[0]@, crate::rules::default_promotion(pos, f, dests[0]@)));
    }
}

/// Check threats, legal moves and checkmate agree./// Check threats, legal moves and checkmate agree.  For any
/// well-formed position with an exact check-threat list and an exact
/// legal-move table (as `get_check_threats` and `legal_move_squares`
/// produce them): the threat list is non-empty exactly when the side
/// to move is in check; every legal move in the table resolves every
/// current threat, leaving the mover's king unattacked; and when the
/// rules say checkmate, the table is empty for every origin square.
pub proof fn lemma_check_threat_consistency(
    pos: PositionView,
    past: Seq<PositionView>,
    threats: Seq<Square>,
    map: Seq<Vec<Square>>,
)
    requires
        position_wf(pos),
        threats_ok(pos, threats),
        map.len() == 64,
        forall|f: int| 0 <= f < 64 ==> dests_ok(pos, f, (#[trigger] map[f])@),
    ensures
        (threats.len() > 0) == in_check(pos, pos.turn),
        forall|f: int, j: int|
            0 <= f < 64 && 0 <= j < map[f]@.len() ==> !in_check(
                apply_move(
                    pos,
                    f,
                    (#[trigger] map[f]@[j])@,
                    crate::rules::default_promotion(pos, f, map[f]@[j]@),
                ),
                pos.turn,
            ),
        spec_status(pos, past) == GameStatus::Checkmate ==> in_check(pos, pos.turn) && (forall|
            f: int,
        |
            0 <= f < 64 ==> (#[trigger] map[f])@.len() == 0),
{
    if threats.len() > 0 {
        assert(check_threat(pos, threats[0]@));
        let k = choose|k: int|
            #[trigger] is_king_square(pos.board, pos.turn, k) && square_attacked_by(
                pos.board,
                k,
                pos.turn.spec_opposite(),
                threats[0]@,
            );
        assert(crate::rules::square_attacked(pos.board, k, pos.turn.spec_opposite()));
        assert(in_check(pos, pos.turn));
    }
    if in_check(pos, pos.turn) {
        let k = choose|k: int|
            #[trigger] is_king_square(pos.board, pos.turn, k) && crate::rules::square_attacked(
                pos.board,
                k,
                pos.turn.spec_opposite(),
            );
        let s = choose|s: int|
            square_attacked_by(pos.board, k, pos.turn.spec_opposite(), s);
        assert(square_attacked_by(pos.board, k, pos.turn.spec_opposite(), s));
        assert(0 <= s < 64);
        assert(check_threat(pos, s));
        assert(threat_has(threats, s));
        assert(threats.len() > 0);
    }
    assert forall|f: int, j: int| 0 <= f < 64 && 0 <= j < map[f]@.len() implies !in_check(
        apply_move(
            pos,
            f,
            (#[trigger] map[f]@[j])@,
            crate::rules::default_promotion(pos, f, map[f]@[j]@),
        ),
        pos.turn,
    ) by {
        assert(dests_ok(pos, f, map[f]@));
        assert(move_legal(pos, f, map[f]@[j]@, crate::rules::default_promotion(pos, f, map[f]@[j]@)));
    }
    if spec_status(pos, past) == GameStatus::Checkmate {
        assert(!has_legal_move(pos));
        assert forall|f: int| 0 <= f < 64 implies (#[trigger] map[f])@.len() == 0 by {
            assert(dests_ok(pos, f, map[f]@));
            if map[f]@.len() > 0 {
                assert(move_legal(
                    pos,
                    f,
                    map[f]@[0]@,
                    crate::rules::default_promotion(pos, f, map[f]@[0]@),
                ));
                assert(has_legal_move(pos));
            }
        }
    }
}

/// The cached king squares of a well-formed game position are the only
/// king squares on its board.
proof fn lemma_wf_unique_king(g: Game)
    requires
        g.wf(),
    ensures
        forall|c: Color, kk: int|
            is_king_square(g@.pos.board, c, kk) ==> kk == (match c {
                Color::White => g.state.white_king as int,
                Color::Black => g.state.black_king as int,
            }),
{
    assert forall|c: Color, kk: int|
        is_king_square(g@.pos.board, c, kk) implies kk == (match c {
        Color::White => g.state.white_king as int,
        Color::Black => g.state.black_king as int,
    }) by {
        if c == Color::White {
            assert(exists|k0: int| unique_king(g@.pos.board, Color::White, k0));
            let k0 = choose|k0: int| unique_king(g@.pos.board, Color::White, k0);
            assert(is_king_square(g@.pos.board, Color::White, g.state.white_king as int));
            assert(kk == k0);
        } else {
            assert(exists|k0: int| unique_king(g@.pos.board, Color::Black, k0));
            let k0 = choose|k0: int| unique_king(g@.pos.board, Color::Black, k0);
            assert(is_king_square(g@.pos.board, Color::Black, g.state.black_king as int));
            assert(kk == k0);
        }
    }
}

/// The two ways of listing a game's past positions coincide: mapping
/// snapshots to views and then projecting equals projecting the
/// history entries first.
proof fn lemma_view_past(g: Game)
    ensures
        view_past(g@) == seq![initial_position()] + g.history@.map_values(
            |e: (Move, GameState)| e.1@,
        ),
{
    assert(view_past(g@) =~= seq![initial_position()] + g.history@.map_values(
        |e: (Move, GameState)| e.1@,
    ));
}

/// Counts how many recorded positions (the start, then one per move)
/// equal the current one, stopping at three: the repetition rule only
/// asks whether three were reached.
fn count_repetitions(state: &GameState, history: &Vec<(Move, GameState)>) -> (r: u8)
    requires
        state@.board.len() == 64,
        forall|i: int| 0 <= i < history@.len() ==> (#[trigger] history@[i]).1.wf(),
    ensures
        ({
            let occ = occurrence_count(
                seq![initial_position()] + history@.map_values(|e: (Move, GameState)| e.1@),
                state@,
                history@.len() as int + 1,
            );
            r == (if occ >= 3 {
                3int
            } else {
                occ
            })
        }),
{
    let ghost past = seq![initial_position()] + history@.map_values(|e: (Move, GameState)| e.1@);
    let initial = GameState::initial();
    let first = compute_same_position(&initial, state);
    proof {
        assert(past[0] == initial_position());
        assert(occurrence_count(past, state@, 0) == 0);
    }
    let mut count: u8 = if first {
        1
    } else {
        0
    };
    let mut i: usize = 0;
    while i < history.len()
        invariant
            state@.board.len() == 64,
            forall|j: int| 0 <= j < history@.len() ==> (#[trigger] history@[j]).1.wf(),
            i <= history@.len(),
            past == seq![initial_position()] + history@.map_values(
                |e: (Move, GameState)| e.1@,
            ),
            count <= 3,
            count == (if occurrence_count(past, state@, i as int + 1) >= 3 {
                3int
            } else {
                occurrence_count(past, state@, i as int + 1)
            }),
        decreases history@.len() - i,
    {
        proof {
            assert(past[i as int + 1] == history@[i as int].1@);
        }
        let same = compute_same_position(&history[i].1, state);
        if same && count < 3 {
            count = count + 1;
        }
        i = i + 1;
    }
    count
}

/// Computes the status the rules dictate for the given position and
/// history, using the already-computed legal-move table.
fn compute_status(
    engine: &Engine,
    state: &GameState,
    history: &Vec<(Move, GameState)>,
    map: &Vec<Vec<Square>>,
) -> (r: GameStatus)
    requires
        state.wf(),
        map@.len() == 64,
        forall|f: int| 0 <= f < 64 ==> dests_ok(state@, f, (#[trigger] map@[f])@),
        forall|i: int| 0 <= i < history@.len() ==> (#[trigger] history@[i]).1.wf(),
    ensures
        r == spec_status(
            state@,
            seq![initial_position()] + history@.map_values(|e: (Move, GameState)| e.1@),
        ),
{
    let any = compute_map_has_move(state, map);
    if !any {
        let check = compute_in_check_wf(engine, state);
        if check {
            GameStatus::Checkmate
        } else {
            GameStatus::Stalemate
        }
    } else if state.halfmove_clock() >= 100 {
        GameStatus::Draw
    } else if compute_insufficient_material(state.board()) {
        GameStatus::Draw
    } else {
        let reps = count_repetitions(state, history);
        proof {
            assert((seq![initial_position()] + history@.map_values(
                |e: (Move, GameState)| e.1@,
            )).len() == history@.len() + 1);
        }
        if reps >= 3 {
            GameStatus::Draw
        } else {
            GameStatus::Running
        }
    }
}

/// Whether the side to move of a well-formed position is in check.
fn compute_in_check_wf(engine: &Engine, state: &GameState) -> (r: bool)
    requires
        state.wf(),
    ensures
        r == in_check(state@, state@.turn),
{
    proof {
        let c = state@.turn;
        assert forall|k: int|
            is_king_square(state@.board, c, k) implies k == state.king_square_spec(c) by {
            if c == Color::White {
                let k0 = choose|k0: int| unique_king(state@.board, Color::White, k0);
                assert(unique_king(state@.board, Color::White, k0));
                assert(is_king_square(state@.board, Color::White, state.white_king as int));
            } else {
                let k0 = choose|k0: int| unique_king(state@.board, Color::Black, k0);
                assert(unique_king(state@.board, Color::Black, k0));
                assert(is_king_square(state@.board, Color::Black, state.black_king as int));
            }
        }
    }
    compute_in_check(engine, state, state.side_to_move())
}

} // verus!
