//! The rules of chess, stated mathematically and computed by verified
//! code: attack detection, pseudo-legal move shapes, the effect of a
//! move on a position, and full legality (a legal move never leaves the
//! mover's own king under attack).

use vstd::prelude::*;
use crate::board::{ChessBoard, SquareContent};
use crate::color::Color;
use crate::engine::Engine;
use crate::piece::Piece;
use crate::square::Square;
use crate::state::{CastlingRights, GameState, PositionView};

verus! {

// ---------------------------------------------------------------------
// Square geometry.
// ---------------------------------------------------------------------

/// The index of the square on the given file and rank, both counted
/// from 0.
pub open spec fn sq_at(file: int, rank: int) -> int {
    rank * 8 + file
}

/// The file of a square index, counted from 0 (the a-file).
pub open spec fn file_of(s: int) -> int {
    s % 8
}

/// The rank of a square index, counted from 0 (White's home rank).
pub open spec fn rank_of(s: int) -> int {
    s / 8
}

/// Whether an index names a square of the board.
pub open spec fn on_board(s: int) -> bool {
    0 <= s < 64
}

/// The absolute value of an integer.
pub open spec fn abs_of(x: int) -> int {
    if x >= 0 {
        x
    } else {
        -x
    }
}

/// The sign of an integer: -1, 0 or 1.
pub open spec fn sign_of(x: int) -> int {
    if x > 0 {
        1
    } else if x < 0 {
        -1
    } else {
        0
    }
}

/// How far apart two squares lie: the larger of the file and rank
/// distances.
pub open spec fn distance(a: int, b: int) -> int {
    let df = abs_of(file_of(b) - file_of(a));
    let dr = abs_of(rank_of(b) - rank_of(a));
    if df >= dr {
        df
    } else {
        dr
    }
}

/// Two distinct squares on one file or one rank: the line a rook moves
/// along.
pub open spec fn same_rook_line(a: int, b: int) -> bool {
    a != b && (file_of(a) == file_of(b) || rank_of(a) == rank_of(b))
}

/// Two distinct squares on one diagonal: the line a bishop moves along.
pub open spec fn same_diagonal(a: int, b: int) -> bool {
    a != b && abs_of(file_of(b) - file_of(a)) == abs_of(rank_of(b) - rank_of(a))
}

/// The i-th square on the straight line from a towards b, counted from
/// a itself at 0.
pub open spec fn line_point(a: int, b: int, i: int) -> int {
    sq_at(
        file_of(a) + i * sign_of(file_of(b) - file_of(a)),
        rank_of(a) + i * sign_of(rank_of(b) - rank_of(a)),
    )
}

/// No piece stands strictly between two squares of one line.
pub open spec fn path_clear(board: Seq<SquareContent>, a: int, b: int) -> bool {
    forall|i: int| 1 <= i < distance(a, b) ==> board[#[trigger] line_point(a, b, i)] is None
}

// ---------------------------------------------------------------------
// Piece movement patterns.
// ---------------------------------------------------------------------

/// The knight's jump: one square along one axis and two along the other.
pub open spec fn knight_jump(a: int, b: int) -> bool {
    let df = abs_of(file_of(b) - file_of(a));
    let dr = abs_of(rank_of(b) - rank_of(a));
    (df == 1 && dr == 2) || (df == 2 && dr == 1)
}

/// The king's step: to a distinct adjacent square.
pub open spec fn king_step(a: int, b: int) -> bool {
    a != b && distance(a, b) <= 1
}

/// The direction a pawn of the given side advances along the ranks.
pub open spec fn pawn_dir(c: Color) -> int {
    if c == Color::White {
        1
    } else {
        -1
    }
}

/// The rank a pawn of the given side starts on, counted from 0.
pub open spec fn pawn_start_rank(c: Color) -> int {
    if c == Color::White {
        1
    } else {
        6
    }
}

/// The rank a pawn of the given side promotes on, counted from 0.
pub open spec fn promotion_rank(c: Color) -> int {
    if c == Color::White {
        7
    } else {
        0
    }
}

/// The step a pawn of the given side takes when it captures: one rank
/// forward, one file aside.
pub open spec fn pawn_capture_step(c: Color, a: int, b: int) -> bool {
    rank_of(b) == rank_of(a) + pawn_dir(c) && abs_of(file_of(b) - file_of(a)) == 1
}

/// Whether a piece of the given kind and side standing on `from` would
/// attack the square `to` on this placement.  Pawns attack only their
/// two capture squares; sliding pieces need a clear path.
pub open spec fn piece_attacks(
    board: Seq<SquareContent>,
    p: Piece,
    c: Color,
    from: int,
    to: int,
) -> bool {
    match p {
        Piece::Pawn => pawn_capture_step(c, from, to),
        Piece::Knight => knight_jump(from, to),
        Piece::Bishop => same_diagonal(from, to) && path_clear(board, from, to),
        Piece::Rook => same_rook_line(from, to) && path_clear(board, from, to),
        Piece::Queen => (same_rook_line(from, to) || same_diagonal(from, to)) && path_clear(
            board,
            from,
            to,
        ),
        Piece::King => king_step(from, to),
    }
}

/// Whether the piece of side `c` standing on `from` attacks `to`.
pub open spec fn square_attacked_by(
    board: Seq<SquareContent>,
    to: int,
    c: Color,
    from: int,
) -> bool {
    &&& on_board(from)
    &&& board[from] matches Some(pc) && pc.1 == c && piece_attacks(board, pc.0, c, from, to)
}

/// Whether any piece of side `c` attacks the square `to`.
pub open spec fn square_attacked(board: Seq<SquareContent>, to: int, c: Color) -> bool {
    exists|from: int| square_attacked_by(board, to, c, from)
}

/// The given side's king stands on this square.
pub open spec fn is_king_square(board: Seq<SquareContent>, c: Color, k: int) -> bool {
    on_board(k) && board[k] == Some((Piece::King, c))
}

/// The given side's king stands on this square and nowhere else.
pub open spec fn unique_king(board: Seq<SquareContent>, c: Color, k: int) -> bool {
    is_king_square(board, c, k) && forall|s: int| is_king_square(board, c, s) ==> s == k
}

/// The given side's king is under attack.
pub open spec fn in_check(pos: PositionView, c: Color) -> bool {
    exists|k: int|
        #[trigger] is_king_square(pos.board, c, k) && square_attacked(
            pos.board,
            k,
            c.spec_opposite(),
        )
}

// ---------------------------------------------------------------------
// Position well-formedness.
// ---------------------------------------------------------------------

/// What the rules assume of the square a pawn may be captured on in
/// passing: it lies on the proper rank, it is empty, and the pawn that
/// just passed it stands right behind it.
pub open spec fn ep_wf(pos: PositionView) -> bool {
    match pos.en_passant {
        None => true,
        Some(e) => {
            &&& on_board(e)
            &&& rank_of(e) == (if pos.turn == Color::White {
                5int
            } else {
                2int
            })
            &&& pos.board[e] is None
            &&& pos.board[e - 8 * pawn_dir(pos.turn)] == Some(
                (Piece::Pawn, pos.turn.spec_opposite()),
            )
        },
    }
}

/// A well-formed position: a 64-square placement with exactly one king
/// per side, the side that just moved not left in check, and a sound
/// en-passant record.
pub open spec fn position_wf(pos: PositionView) -> bool {
    &&& pos.board.len() == 64
    &&& exists|k: int| unique_king(pos.board, Color::White, k)
    &&& exists|k: int| unique_king(pos.board, Color::Black, k)
    &&& !in_check(pos, pos.turn.spec_opposite())
    &&& ep_wf(pos)
    &&& 0 <= pos.halfmove_clock
}

// ---------------------------------------------------------------------
// Pseudo-legal moves: shape and occupancy, ignoring king safety.
// ---------------------------------------------------------------------

/// The square the side's king starts on: e1 for White, e8 for Black.
pub open spec fn king_home(c: Color) -> int {
    if c == Color::White {
        4
    } else {
        60
    }
}

/// A castling move of the side to move: the king, standing unattacked
/// on its home square, steps two files towards a rook that has kept its
/// right, over empty and unattacked squares.
pub open spec fn castle_ok(pos: PositionView, from: int, to: int) -> bool {
    let c = pos.turn;
    let opp = c.spec_opposite();
    &&& from == king_home(c)
    &&& !square_attacked(pos.board, from, opp)
    &&& {
        ||| {
            &&& to == from + 2
            &&& pos.castling.spec_king_side(c)
            &&& pos.board[from + 3] == Some((Piece::Rook, c))
            &&& pos.board[from + 1] is None
            &&& pos.board[from + 2] is None
            &&& !square_attacked(pos.board, from + 1, opp)
        }
        ||| {
            &&& to == from - 2
            &&& pos.castling.spec_queen_side(c)
            &&& pos.board[from - 4] == Some((Piece::Rook, c))
            &&& pos.board[from - 1] is None
            &&& pos.board[from - 2] is None
            &&& pos.board[from - 3] is None
            &&& !square_attacked(pos.board, from - 1, opp)
        }
    }
}

/// A pawn advance: one square forward onto an empty square, or two from
/// the start rank over an empty square onto an empty square.
pub open spec fn pawn_push_ok(pos: PositionView, from: int, to: int) -> bool {
    let d = pawn_dir(pos.turn);
    ||| {
        &&& file_of(to) == file_of(from)
        &&& rank_of(to) == rank_of(from) + d
        &&& pos.board[to] is None
    }
    ||| {
        &&& file_of(to) == file_of(from)
        &&& rank_of(from) == pawn_start_rank(pos.turn)
        &&& rank_of(to) == rank_of(from) + 2 * d
        &&& pos.board[sq_at(file_of(from), rank_of(from) + d)] is None
        &&& pos.board[to] is None
    }
}

/// A pawn capture: one forward-diagonal step onto an opponent's piece,
/// or onto the recorded en-passant square.
pub open spec fn pawn_capture_ok(pos: PositionView, from: int, to: int) -> bool {
    &&& pawn_capture_step(pos.turn, from, to)
    &&& {
        ||| pos.board[to] matches Some(pc) && pc.1 == pos.turn.spec_opposite()
        ||| (pos.board[to] is None && pos.en_passant == Some(to))
    }
}

/// The movement pattern of the piece standing on `from`, against this
/// position's occupancy, ignoring king safety.
pub open spec fn move_shape_ok(pos: PositionView, from: int, to: int) -> bool {
    match pos.board[from] {
        Some(pc) => match pc.0 {
            Piece::Pawn => pawn_push_ok(pos, from, to) || pawn_capture_ok(pos, from, to),
            Piece::Knight => knight_jump(from, to),
            Piece::Bishop => same_diagonal(from, to) && path_clear(pos.board, from, to),
            Piece::Rook => same_rook_line(from, to) && path_clear(pos.board, from, to),
            Piece::Queen => (same_rook_line(from, to) || same_diagonal(from, to)) && path_clear(
                pos.board,
                from,
                to,
            ),
            Piece::King => king_step(from, to) || castle_ok(pos, from, to),
        },
        None => false,
    }
}

/// Whether the move is a pawn move onto the promotion rank.
pub open spec fn is_promotion_move(pos: PositionView, from: int, to: int) -> bool {
    &&& pos.board[from] matches Some(pc) && pc.0 == Piece::Pawn
    &&& rank_of(to) == promotion_rank(pos.turn)
}

/// A promotion move names one of Knight, Bishop, Rook or Queen; any
/// other move names no promotion piece.
pub open spec fn promotion_ok(pos: PositionView, from: int, to: int, promo: Option<Piece>) -> bool {
    if is_promotion_move(pos, from, to) {
        promo matches Some(p) && p.spec_is_promotion_choice()
    } else {
        promo is None
    }
}

/// A pseudo-legal move: the side to move's own piece leaves its square,
/// lands on a square not held by that side, follows its movement
/// pattern, and carries a sound promotion choice.  King safety is not
/// yet considered.
pub open spec fn pseudo_legal(pos: PositionView, from: int, to: int, promo: Option<Piece>) -> bool {
    &&& on_board(from)
    &&& on_board(to)
    &&& from != to
    &&& pos.board[from] matches Some(pc) && pc.1 == pos.turn
    &&& !(pos.board[to] matches Some(pc) && pc.1 == pos.turn)
    &&& move_shape_ok(pos, from, to)
    &&& promotion_ok(pos, from, to, promo)
}

// ---------------------------------------------------------------------
// The effect of a move.
// ---------------------------------------------------------------------

/// The castling rights left after a move over the given squares: a
/// right survives as long as neither the king's home square nor the
/// right's rook corner was the origin or destination of a move.
pub open spec fn castling_after(c: CastlingRights, from: int, to: int) -> CastlingRights {
    CastlingRights {
        white_king_side: c.white_king_side && from != 4 && from != 7 && to != 7,
        white_queen_side: c.white_queen_side && from != 4 && from != 0 && to != 0,
        black_king_side: c.black_king_side && from != 60 && from != 63 && to != 63,
        black_queen_side: c.black_queen_side && from != 60 && from != 56 && to != 56,
    }
}

/// The placement after the move, before any rook shift or en-passant
/// removal: the origin emptied, the destination holding the moved piece
/// or the promotion piece.
pub open spec fn board_after_main(
    board: Seq<SquareContent>,
    c: Color,
    p: Piece,
    from: int,
    to: int,
    promo: Option<Piece>,
) -> Seq<SquareContent> {
    let placed = match promo {
        Some(q) => q,
        None => p,
    };
    board.update(from, None).update(to, Some((placed, c)))
}

/// The full placement after the move: en-passant captures also empty
/// the passed pawn's square, and castling also shifts the rook.
pub open spec fn board_after(pos: PositionView, from: int, to: int, promo: Option<Piece>) -> Seq<
    SquareContent,
> {
    let c = pos.turn;
    match pos.board[from] {
        Some(pc) => {
            let p = pc.0;
            let b1 = board_after_main(pos.board, c, p, from, to, promo);
            if p == Piece::Pawn && pos.en_passant == Some(to) && file_of(to) != file_of(from)
                && pos.board[to] is None {
                b1.update(sq_at(file_of(to), rank_of(from)), None)
            } else if p == Piece::King && from == king_home(c) && to == from + 2 {
                b1.update(from + 3, None).update(from + 1, Some((Piece::Rook, c)))
            } else if p == Piece::King && from == king_home(c) && to == from - 2 {
                b1.update(from - 4, None).update(from - 1, Some((Piece::Rook, c)))
            } else {
                b1
            }
        },
        None => pos.board,
    }
}

/// The en-passant square recorded after the move: the passed square of
/// a double pawn push, otherwise none.
pub open spec fn en_passant_after(pos: PositionView, from: int, to: int) -> Option<int> {
    match pos.board[from] {
        Some(pc) => {
            if pc.0 == Piece::Pawn && rank_of(to) == rank_of(from) + 2 * pawn_dir(pos.turn) {
                Some(sq_at(file_of(from), rank_of(from) + pawn_dir(pos.turn)))
            } else {
                None
            }
        },
        None => None,
    }
}

/// The half-move clock after the move: zero after a pawn move or a
/// capture, otherwise one more.
pub open spec fn halfmove_after(pos: PositionView, from: int, to: int) -> int {
    match pos.board[from] {
        Some(pc) => {
            if pc.0 == Piece::Pawn || pos.board[to] is Some {
                0
            } else {
                pos.halfmove_clock + 1
            }
        },
        None => pos.halfmove_clock,
    }
}

/// The position after the move is played: the new placement, the other
/// side to move, reduced castling rights, the new en-passant record and
/// half-move clock.
pub open spec fn apply_move(pos: PositionView, from: int, to: int, promo: Option<Piece>) -> PositionView {
    PositionView {
        board: board_after(pos, from, to, promo),
        turn: pos.turn.spec_opposite(),
        castling: castling_after(pos.castling, from, to),
        en_passant: en_passant_after(pos, from, to),
        halfmove_clock: halfmove_after(pos, from, to),
    }
}

// ---------------------------------------------------------------------
// Legality.
// ---------------------------------------------------------------------

/// A legal move: pseudo-legal, and it does not leave the mover's own
/// king under attack.
pub open spec fn move_legal(pos: PositionView, from: int, to: int, promo: Option<Piece>) -> bool {
    &&& pseudo_legal(pos, from, to, promo)
    &&& !in_check(apply_move(pos, from, to, promo), pos.turn)
}

/// The promotion piece the engine fills in when the caller names none:
/// Queen on a promotion move, nothing otherwise.
pub open spec fn default_promotion(pos: PositionView, from: int, to: int) -> Option<Piece> {
    if is_promotion_move(pos, from, to) {
        Some(Piece::Queen)
    } else {
        None
    }
}

/// The side to move has at least one legal move.
pub open spec fn has_legal_move(pos: PositionView) -> bool {
    exists|from: int, to: int|
        #[trigger] move_legal(pos, from, to, default_promotion(pos, from, to))
}

// ---------------------------------------------------------------------
// Executable geometry.
// ---------------------------------------------------------------------

proof fn lemma_coord_bounds(x: int)
    requires
        0 <= x < 64,
    ensures
        0 <= x / 8 <= 7,
        0 <= x % 8 <= 7,
{
    assert(0 <= x / 8 <= 7) by (nonlinear_arith)
        requires
            0 <= x < 64,
    ;
    assert(0 <= x % 8 <= 7) by (nonlinear_arith)
        requires
            0 <= x < 64,
    ;
}

proof fn lemma_mul_unit(i: int, s: int)
    ensures
        s == 0 ==> i * s == 0,
        s == 1 ==> i * s == i,
        s == -1 ==> i * s == -i,
        (i + 1) * s == i * s + s,
{
    assert(s == 0 ==> i * s == 0) by (nonlinear_arith);
    assert(s == 1 ==> i * s == i) by (nonlinear_arith);
    assert(s == -1 ==> i * s == -i) by (nonlinear_arith);
    assert((i + 1) * s == i * s + s) by (nonlinear_arith);
}

pub(crate) fn compute_knight_jump(a: u8, b: u8) -> (r: bool)
    requires
        a < 64,
        b < 64,
    ensures
        r == knight_jump(a as int, b as int),
{
    let af = (a % 8) as i16;
    let ar = (a / 8) as i16;
    let bf = (b % 8) as i16;
    let br = (b / 8) as i16;
    let df: i16 = if bf >= af {
        bf - af
    } else {
        af - bf
    };
    let dr: i16 = if br >= ar {
        br - ar
    } else {
        ar - br
    };
    (df == 1 && dr == 2) || (df == 2 && dr == 1)
}

pub(crate) fn compute_king_step(a: u8, b: u8) -> (r: bool)
    requires
        a < 64,
        b < 64,
    ensures
        r == king_step(a as int, b as int),
{
    let af = (a % 8) as i16;
    let ar = (a / 8) as i16;
    let bf = (b % 8) as i16;
    let br = (b / 8) as i16;
    let df: i16 = if bf >= af {
        bf - af
    } else {
        af - bf
    };
    let dr: i16 = if br >= ar {
        br - ar
    } else {
        ar - br
    };
    a != b && df <= 1 && dr <= 1
}

fn compute_pawn_capture_step(c: Color, a: u8, b: u8) -> (r: bool)
    requires
        a < 64,
        b < 64,
    ensures
        r == pawn_capture_step(c, a as int, b as int),
{
    let af = (a % 8) as i16;
    let ar = (a / 8) as i16;
    let bf = (b % 8) as i16;
    let br = (b / 8) as i16;
    let d: i16 = if c == Color::White {
        1
    } else {
        -1
    };
    let df: i16 = if bf >= af {
        bf - af
    } else {
        af - bf
    };
    br == ar + d && df == 1
}

fn compute_same_rook_line(a: u8, b: u8) -> (r: bool)
    requires
        a < 64,
        b < 64,
    ensures
        r == same_rook_line(a as int, b as int),
{
    a != b && (a % 8 == b % 8 || a / 8 == b / 8)
}

fn compute_same_diagonal(a: u8, b: u8) -> (r: bool)
    requires
        a < 64,
        b < 64,
    ensures
        r == same_diagonal(a as int, b as int),
{
    let af = (a % 8) as i16;
    let ar = (a / 8) as i16;
    let bf = (b % 8) as i16;
    let br = (b / 8) as i16;
    let df: i16 = if bf >= af {
        bf - af
    } else {
        af - bf
    };
    let dr: i16 = if br >= ar {
        br - ar
    } else {
        ar - br
    };
    a != b && df == dr
}

/// Walks the straight line between two aligned squares and reports
/// whether every square strictly between them is empty.
fn compute_path_clear(board: &ChessBoard, a: u8, b: u8) -> (r: bool)
    requires
        a < 64,
        b < 64,
        same_rook_line(a as int, b as int) || same_diagonal(a as int, b as int),
    ensures
        r == path_clear(board@, a as int, b as int),
{
    let ghost ai = a as int;
    let ghost bi = b as int;
    let af = (a % 8) as i16;
    let ar = (a / 8) as i16;
    let bf = (b % 8) as i16;
    let br = (b / 8) as i16;
    let sf: i16 = if bf > af {
        1
    } else if bf < af {
        -1
    } else {
        0
    };
    let sr: i16 = if br > ar {
        1
    } else if br < ar {
        -1
    } else {
        0
    };
    let df: i16 = if bf >= af {
        bf - af
    } else {
        af - bf
    };
    let dr: i16 = if br >= ar {
        br - ar
    } else {
        ar - br
    };
    let n: i16 = if df >= dr {
        df
    } else {
        dr
    };
    proof {
        assert(n == distance(ai, bi));
        assert(sf == sign_of(file_of(bi) - file_of(ai)));
        assert(sr == sign_of(rank_of(bi) - rank_of(ai)));
        assert(sf != 0 ==> abs_of(file_of(bi) - file_of(ai)) == n);
        assert(sr != 0 ==> abs_of(rank_of(bi) - rank_of(ai)) == n);
    }
    let mut i: i16 = 1;
    let mut f: i16 = af + sf;
    let mut rk: i16 = ar + sr;
    proof {
        lemma_mul_unit(1, sf as int);
        lemma_mul_unit(1, sr as int);
    }
    while i < n
        invariant
            1 <= i,
            i <= n || n < 1,
            n == distance(ai, bi),
            a < 64,
            b < 64,
            ai == a as int,
            bi == b as int,
            af == file_of(ai),
            ar == rank_of(ai),
            sf == sign_of(file_of(bi) - file_of(ai)),
            sr == sign_of(rank_of(bi) - rank_of(ai)),
            sf != 0 ==> abs_of(file_of(bi) - file_of(ai)) == n,
            sr != 0 ==> abs_of(rank_of(bi) - rank_of(ai)) == n,
            f == file_of(ai) + i * sign_of(file_of(bi) - file_of(ai)),
            rk == rank_of(ai) + i * sign_of(rank_of(bi) - rank_of(ai)),
            forall|j: int| 1 <= j < i ==> board@[#[trigger] line_point(ai, bi, j)] is None,
        decreases n - i,
    {
        proof {
            lemma_coord_bounds(ai);
            lemma_coord_bounds(bi);
            lemma_mul_unit(i as int, sf as int);
            lemma_mul_unit(i as int, sr as int);
            if sf == 1 {
                assert(file_of(bi) - file_of(ai) == n);
                assert(f == af + i);
            } else if sf == -1 {
                assert(file_of(ai) - file_of(bi) == n);
                assert(f == af - i);
            } else {
                assert(f == af);
            }
            if sr == 1 {
                assert(rank_of(bi) - rank_of(ai) == n);
                assert(rk == ar + i);
            } else if sr == -1 {
                assert(rank_of(ai) - rank_of(bi) == n);
                assert(rk == ar - i);
            } else {
                assert(rk == ar);
            }
            assert(0 <= f < 8);
            assert(0 <= rk < 8);
        }
        let s8: u8 = (rk * 8 + f) as u8;
        proof {
            assert(s8 as int == line_point(ai, bi, i as int));
        }
        if board.get_piece_at(s8).is_some() {
            proof {
                assert(board@[line_point(ai, bi, i as int)] is Some);
                assert(!path_clear(board@, ai, bi));
            }
            return false;
        }
        proof {
            lemma_mul_unit(i as int, sf as int);
            lemma_mul_unit(i as int, sr as int);
        }
        f = f + sf;
        rk = rk + sr;
        i = i + 1;
    }
    true
}

// ---------------------------------------------------------------------
// Executable attack detection.
// ---------------------------------------------------------------------

/// Whether a piece of the given kind and side standing on `from` would
/// attack `to`.
fn compute_piece_attacks(
    engine: &Engine,
    board: &ChessBoard,
    p: Piece,
    c: Color,
    from: u8,
    to: u8,
) -> (r: bool)
    requires
        from < 64,
        to < 64,
    ensures
        r == piece_attacks(board@, p, c, from as int, to as int),
{
    match p {
        Piece::Pawn => compute_pawn_capture_step(c, from, to),
        Piece::Knight => engine.knight_jump_at(from, to),
        Piece::Bishop => {
            if compute_same_diagonal(from, to) {
                compute_path_clear(board, from, to)
            } else {
                false
            }
        },
        Piece::Rook => {
            if compute_same_rook_line(from, to) {
                compute_path_clear(board, from, to)
            } else {
                false
            }
        },
        Piece::Queen => {
            if compute_same_rook_line(from, to) || compute_same_diagonal(from, to) {
                compute_path_clear(board, from, to)
            } else {
                false
            }
        },
        Piece::King => engine.king_step_at(from, to),
    }
}

/// Whether the piece of side `by` standing on `from`, if any, attacks
/// `to`.
pub(crate) fn compute_attacked_by(
    engine: &Engine,
    board: &ChessBoard,
    to: u8,
    by: Color,
    from: u8,
) -> (r: bool)
    requires
        from < 64,
        to < 64,
    ensures
        r == square_attacked_by(board@, to as int, by, from as int),
{
    match board.get_piece_at(from) {
        None => false,
        Some((p, c)) => {
            if c == by {
                compute_piece_attacks(engine, board, p, c, from, to)
            } else {
                false
            }
        },
    }
}

/// Whether any piece of side `by` attacks the square `to`.
pub(crate) fn compute_square_attacked(
    engine: &Engine,
    board: &ChessBoard,
    to: u8,
    by: Color,
) -> (r: bool)
    requires
        to < 64,
    ensures
        r == square_attacked(board@, to as int, by),
{
    let mut from: u8 = 0;
    while from < 64
        invariant
            from <= 64,
            to < 64,
            forall|s: int| 0 <= s < from ==> !square_attacked_by(board@, to as int, by, s),
        decreases 64 - from,
    {
        if compute_attacked_by(engine, board, to, by, from) {
            proof {
                assert(square_attacked_by(board@, to as int, by, from as int));
            }
            return true;
        }
        from = from + 1;
    }
    proof {
        assert forall|s: int| !square_attacked_by(board@, to as int, by, s) by {
            if 0 <= s < 64 {
            } else {
                assert(!on_board(s));
            }
        }
    }
    false
}

// ---------------------------------------------------------------------
// Executable pseudo-legality.
// ---------------------------------------------------------------------

proof fn lemma_sq_decompose(x: int)
    requires
        0 <= x < 64,
    ensures
        x == 8 * (x / 8) + x % 8,
        0 <= x / 8 <= 7,
        0 <= x % 8 <= 7,
{
    lemma_coord_bounds(x);
    assert(x == 8 * (x / 8) + x % 8) by (nonlinear_arith)
        requires
            0 <= x < 64,
    ;
}

fn compute_pawn_move_ok(state: &GameState, from: u8, to: u8) -> (r: bool)
    requires
        from < 64,
        to < 64,
    ensures
        r == (pawn_push_ok(state@, from as int, to as int) || pawn_capture_ok(
            state@,
            from as int,
            to as int,
        )),
{
    proof {
        lemma_sq_decompose(from as int);
        lemma_sq_decompose(to as int);
    }
    let c = state.turn;
    let ff = from % 8;
    let fr = from / 8;
    let tf = to % 8;
    let tr = to / 8;
    let single = ff == tf && ((c == Color::White && tr == fr + 1) || (c == Color::Black && fr == tr
        + 1)) && state.board.get_piece_at(to).is_none();
    if single {
        return true;
    }
    let start_ok = (c == Color::White && fr == 1 && tr == 3) || (c == Color::Black && fr == 6 && tr
        == 4);
    if ff == tf && start_ok {
        let mid: u8 = if c == Color::White {
            from + 8
        } else {
            from - 8
        };
        proof {
            assert(mid as int == sq_at(
                file_of(from as int),
                rank_of(from as int) + pawn_dir(c),
            ));
        }
        if state.board.get_piece_at(mid).is_none() && state.board.get_piece_at(to).is_none() {
            return true;
        }
    }
    if compute_pawn_capture_step(c, from, to) {
        match state.board.get_piece_at(to) {
            Some((_, oc)) => {
                return oc == c.opposite();
            },
            None => {
                match state.en_passant {
                    Some(e) => {
                        return e.get_value() == to;
                    },
                    None => {
                        return false;
                    },
                }
            },
        }
    }
    false
}

fn compute_castle_ok(engine: &Engine, state: &GameState, from: u8, to: u8) -> (r: bool)
    requires
        from < 64,
        to < 64,
    ensures
        r == castle_ok(state@, from as int, to as int),
{
    let c = state.turn;
    let opp = c.opposite();
    let home: u8 = if c == Color::White {
        4
    } else {
        60
    };
    if from != home {
        return false;
    }
    if compute_square_attacked(engine, &state.board, from, opp) {
        return false;
    }
    if to == from + 2 {
        let right = if c == Color::White {
            state.castling.white_king_side
        } else {
            state.castling.black_king_side
        };
        if !right {
            return false;
        }
        let rook_ok = match state.board.get_piece_at(from + 3) {
            Some((p2, c2)) => p2 == Piece::Rook && c2 == c,
            None => false,
        };
        rook_ok && state.board.get_piece_at(from + 1).is_none() && state.board.get_piece_at(
            from + 2,
        ).is_none() && !compute_square_attacked(engine, &state.board, from + 1, opp)
    } else if to + 2 == from {
        let right = if c == Color::White {
            state.castling.white_queen_side
        } else {
            state.castling.black_queen_side
        };
        if !right {
            return false;
        }
        let rook_ok = match state.board.get_piece_at(from - 4) {
            Some((p2, c2)) => p2 == Piece::Rook && c2 == c,
            None => false,
        };
        rook_ok && state.board.get_piece_at(from - 1).is_none() && state.board.get_piece_at(
            from - 2,
        ).is_none() && state.board.get_piece_at(from - 3).is_none() && !compute_square_attacked(
            engine,
            &state.board,
            from - 1,
            opp,
        )
    } else {
        false
    }
}

fn compute_move_shape(engine: &Engine, state: &GameState, from: u8, to: u8) -> (r: bool)
    requires
        from < 64,
        to < 64,
    ensures
        r == move_shape_ok(state@, from as int, to as int),
{
    match state.board.get_piece_at(from) {
        None => false,
        Some((p, c)) => match p {
            Piece::Pawn => compute_pawn_move_ok(state, from, to),
            Piece::Knight | Piece::Bishop | Piece::Rook | Piece::Queen => compute_piece_attacks(
                engine,
                &state.board,
                p,
                c,
                from,
                to,
            ),
            Piece::King => {
                if engine.king_step_at(from, to) {
                    true
                } else {
                    compute_castle_ok(engine, state, from, to)
                }
            },
        },
    }
}

fn compute_promotion_ok(state: &GameState, from: u8, to: u8, promo: Option<Piece>) -> (r: bool)
    requires
        from < 64,
        to < 64,
    ensures
        r == promotion_ok(state@, from as int, to as int, promo),
{
    let is_pawn = match state.board.get_piece_at(from) {
        Some((p, _)) => p == Piece::Pawn,
        None => false,
    };
    let promo_rank: u8 = if state.turn == Color::White {
        7
    } else {
        0
    };
    if is_pawn && to / 8 == promo_rank {
        match promo {
            Some(p) => p.is_promotion_choice(),
            None => false,
        }
    } else {
        promo.is_none()
    }
}

/// Whether the move is pseudo-legal in this position: right shape and
/// occupancy, king safety not yet considered.
pub(crate) fn compute_pseudo_legal(
    engine: &Engine,
    state: &GameState,
    from: u8,
    to: u8,
    promo: Option<Piece>,
) -> (r: bool)
    requires
        from < 64,
        to < 64,
    ensures
        r == pseudo_legal(state@, from as int, to as int, promo),
{
    if from == to {
        return false;
    }
    let own = match state.board.get_piece_at(from) {
        Some((_, c2)) => c2 == state.turn,
        None => false,
    };
    if !own {
        return false;
    }
    let dest_own = match state.board.get_piece_at(to) {
        Some((_, c2)) => c2 == state.turn,
        None => false,
    };
    if dest_own {
        return false;
    }
    if !compute_move_shape(engine, state, from, to) {
        return false;
    }
    compute_promotion_ok(state, from, to, promo)
}

// ---------------------------------------------------------------------
// Applying a move.
// ---------------------------------------------------------------------

/// A pseudo-legal move that lands on an occupied square attacks that
/// square: every capturing shape is also an attacking shape.
proof fn lemma_capture_attacks(pos: PositionView, from: int, to: int, promo: Option<Piece>)
    requires
        pseudo_legal(pos, from, to, promo),
        pos.board[to] is Some,
    ensures
        square_attacked_by(pos.board, to, pos.turn, from),
{
    match pos.board[from] {
        Some(pc) => {
            match pc.0 {
                Piece::Pawn => {
                    assert(pawn_capture_ok(pos, from, to));
                },
                Piece::King => {
                    if !king_step(from, to) {
                        assert(castle_ok(pos, from, to));
                        assert(pos.board[to] is None);
                        assert(false);
                    }
                },
                _ => {},
            }
            assert(piece_attacks(pos.board, pc.0, pos.turn, from, to));
        },
        None => {
            assert(false);
        },
    }
}

/// A pseudo-legal move in a well-formed position never captures a
/// king: the mover cannot take its own king, and taking the other king
/// would mean the side that just moved had been left in check.
proof fn lemma_no_king_capture(pos: PositionView, from: int, to: int, promo: Option<Piece>)
    requires
        position_wf(pos),
        pseudo_legal(pos, from, to, promo),
    ensures
        pos.board[to] != Some((Piece::King, Color::White)),
        pos.board[to] != Some((Piece::King, Color::Black)),
{
    let opp = pos.turn.spec_opposite();
    assert(pos.board[to] != Some((Piece::King, pos.turn)));
    if pos.board[to] == Some((Piece::King, opp)) {
        lemma_capture_attacks(pos, from, to, promo);
        assert(square_attacked(pos.board, to, pos.turn));
        assert(is_king_square(pos.board, opp, to));
        assert(in_check(pos, opp));
        assert(false);
    }
}

/// The squares the move writes besides the origin and the destination
/// (the pawn captured in passing, the castling rook's corner and
/// landing square) never hold a king beforehand.
proof fn lemma_apply_king_sources(
    pos: PositionView,
    from: int,
    to: int,
    promo: Option<Piece>,
    kc: Color,
    s: int,
)
    requires
        position_wf(pos),
        pseudo_legal(pos, from, to, promo),
        is_king_square(board_after(pos, from, to, promo), kc, s),
    ensures
        (s == to && kc == pos.turn && pos.board[from] == Some((Piece::King, pos.turn))) || (
        is_king_square(pos.board, kc, s) && s != from && s != to),
{
    let c = pos.turn;
    let after = board_after(pos, from, to, promo);
    match pos.board[from] {
        Some(pc) => {
            let p = pc.0;
            let placed = match promo {
                Some(q) => q,
                None => p,
            };
            assert(placed == Piece::King ==> p == Piece::King);
            let b1 = board_after_main(pos.board, c, p, from, to, promo);
            if p == Piece::Pawn && pos.en_passant == Some(to) && file_of(to) != file_of(from)
                && pos.board[to] is None {
                let cap = sq_at(file_of(to), rank_of(from));
                assert(pawn_capture_ok(pos, from, to));
                lemma_sq_decompose(from);
                lemma_sq_decompose(to);
                assert(cap == to - 8 * pawn_dir(c));
                assert(pos.board[cap] == Some((Piece::Pawn, c.spec_opposite())));
                assert(after == b1.update(cap, None));
                if s != cap && s != from && s != to {
                    assert(after[s] == pos.board[s]);
                }
            } else if p == Piece::King && from == king_home(c) && to == from + 2 {
                assert(after == b1.update(from + 3, None).update(from + 1, Some((Piece::Rook, c))));
                if s != from + 3 && s != from + 1 && s != from && s != to {
                    assert(after[s] == pos.board[s]);
                }
            } else if p == Piece::King && from == king_home(c) && to == from - 2 {
                assert(after == b1.update(from - 4, None).update(from - 1, Some((Piece::Rook, c))));
                if s != from - 4 && s != from - 1 && s != from && s != to {
                    assert(after[s] == pos.board[s]);
                }
            } else {
                assert(after == b1);
                if s != from && s != to {
                    assert(after[s] == pos.board[s]);
                }
            }
        },
        None => {
            assert(false);
        },
    }
}

/// After a pseudo-legal king move, the king stands on the destination.
proof fn lemma_apply_moved_king(pos: PositionView, from: int, to: int, promo: Option<Piece>)
    requires
        position_wf(pos),
        pseudo_legal(pos, from, to, promo),
        pos.board[from] == Some((Piece::King, pos.turn)),
    ensures
        board_after(pos, from, to, promo)[to] == Some((Piece::King, pos.turn)),
{
    assert(promo is None);
}

/// After a pseudo-legal move of another piece, a king keeps its square.
proof fn lemma_apply_kept_king(
    pos: PositionView,
    from: int,
    to: int,
    promo: Option<Piece>,
    kc: Color,
    k: int,
)
    requires
        position_wf(pos),
        pseudo_legal(pos, from, to, promo),
        is_king_square(pos.board, kc, k),
        pos.board[from] != Some((Piece::King, kc)),
    ensures
        board_after(pos, from, to, promo)[k] == Some((Piece::King, kc)),
{
    let c = pos.turn;
    lemma_no_king_capture(pos, from, to, promo);
    assert(k != from);
    assert(k != to);
    match pos.board[from] {
        Some(pc) => {
            let p = pc.0;
            let b1 = board_after_main(pos.board, c, p, from, to, promo);
            assert(b1[k] == pos.board[k]);
            if p == Piece::Pawn && pos.en_passant == Some(to) && file_of(to) != file_of(from)
                && pos.board[to] is None {
                let cap = sq_at(file_of(to), rank_of(from));
                assert(pawn_capture_ok(pos, from, to));
                lemma_sq_decompose(from);
                lemma_sq_decompose(to);
                assert(cap == to - 8 * pawn_dir(c));
                assert(pos.board[cap] == Some((Piece::Pawn, c.spec_opposite())));
                assert(k != cap);
            } else if p == Piece::King && from == king_home(c) && to == from + 2 {
                assert(castle_ok(pos, from, to));
                assert(pos.board[from + 3] == Some((Piece::Rook, c)));
                assert(pos.board[from + 1] is None);
                assert(k != from + 3 && k != from + 1);
            } else if p == Piece::King && from == king_home(c) && to == from - 2 {
                assert(castle_ok(pos, from, to));
                assert(pos.board[from - 4] == Some((Piece::Rook, c)));
                assert(pos.board[from - 1] is None);
                assert(k != from - 4 && k != from - 1);
            }
        },
        None => {
            assert(false);
        },
    }
}

/// After a pseudo-legal move there is still only one king of each
/// side: on the destination if that side's king moved, else where it
/// stood.
proof fn lemma_apply_unique(
    pos: PositionView,
    from: int,
    to: int,
    promo: Option<Piece>,
    kc: Color,
    cached: int,
)
    requires
        position_wf(pos),
        pseudo_legal(pos, from, to, promo),
        is_king_square(pos.board, kc, cached),
    ensures
        forall|k: int|
            is_king_square(board_after(pos, from, to, promo), kc, k) ==> k == (if pos.board[from]
                == Some((Piece::King, kc)) {
                to
            } else {
                cached
            }),
{
    let after = board_after(pos, from, to, promo);
    if kc == Color::White {
        assert(exists|k0: int| unique_king(pos.board, Color::White, k0));
    } else {
        assert(exists|k0: int| unique_king(pos.board, Color::Black, k0));
    }
    let k0 = choose|k0: int| unique_king(pos.board, kc, k0);
    assert(unique_king(pos.board, kc, k0));
    assert(cached == k0);
    assert forall|k: int|
        is_king_square(after, kc, k) implies k == (if pos.board[from] == Some(
        (Piece::King, kc),
    ) {
        to
    } else {
        cached
    }) by {
        lemma_apply_king_sources(pos, from, to, promo, kc, k);
        if pos.board[from] == Some((Piece::King, kc)) {
            assert(is_king_square(pos.board, kc, from));
            assert(from == k0);
            if k != to {
                assert(is_king_square(pos.board, kc, k) && k != from);
                assert(k == k0);
                assert(false);
            }
        } else {
            assert(is_king_square(pos.board, kc, k));
            assert(k == k0);
        }
    }
}

/// Plays a pseudo-legal move on a copy of the position: moves the
/// piece, removes a pawn captured in passing, shifts the castling
/// rook, cuts castling rights, and updates the en-passant record, the
/// half-move clock, the side to move and the cached king squares.
pub(crate) fn compute_apply(state: &GameState, from: u8, to: u8, promo: Option<Piece>) -> (r:
    GameState)
    requires
        state.wf(),
        state@.halfmove_clock < 65535,
        pseudo_legal(state@, from as int, to as int, promo),
    ensures
        r@ == apply_move(state@, from as int, to as int, promo),
        r.kings_cached(),
        forall|k: int|
            is_king_square(r@.board, Color::White, k) ==> k == r.king_square_spec(Color::White),
        forall|k: int|
            is_king_square(r@.board, Color::Black, k) ==> k == r.king_square_spec(Color::Black),
{
    let ghost pos = state@;
    let ghost fi = from as int;
    let ghost ti = to as int;
    proof {
        lemma_no_king_capture(pos, fi, ti, promo);
        lemma_sq_decompose(fi);
        lemma_sq_decompose(ti);
    }
    let c = state.turn;
    let p = match state.board.get_piece_at(from) {
        Some(pc) => pc.0,
        None => vstd::pervasive::unreached(),
    };
    let dest_occupied = state.board.get_piece_at(to).is_some();
    let mut nb = state.board.clone();
    let placed = match promo {
        Some(q) => q,
        None => p,
    };
    nb.set_piece_at(from, None);
    nb.set_piece_at(to, Some((placed, c)));
    let is_ep = p == Piece::Pawn && !dest_occupied && (from % 8 != to % 8) && (match state
        .en_passant {
        Some(e) => e.get_value() == to,
        None => false,
    });
    let home: u8 = if c == Color::White {
        4
    } else {
        60
    };
    if is_ep {
        let cap: u8 = (from / 8) * 8 + to % 8;
        proof {
            assert(cap as int == sq_at(file_of(ti), rank_of(fi)));
        }
        nb.set_piece_at(cap, None);
    } else if p == Piece::King && from == home && to == from + 2 {
        nb.set_piece_at(from + 3, None);
        nb.set_piece_at(from + 1, Some((Piece::Rook, c)));
    } else if p == Piece::King && from == home && to + 2 == from {
        nb.set_piece_at(from - 4, None);
        nb.set_piece_at(from - 1, Some((Piece::Rook, c)));
    }
    let cr = state.castling;
    let new_castling = CastlingRights {
        white_king_side: cr.white_king_side && from != 4 && from != 7 && to != 7,
        white_queen_side: cr.white_queen_side && from != 4 && from != 0 && to != 0,
        black_king_side: cr.black_king_side && from != 60 && from != 63 && to != 63,
        black_queen_side: cr.black_queen_side && from != 60 && from != 56 && to != 56,
    };
    let double_push = p == Piece::Pawn && ((c == Color::White && to / 8 == from / 8 + 2) || (c
        == Color::Black && from / 8 == to / 8 + 2));
    let new_ep: Option<Square> = if double_push {
        let mid: u8 = if c == Color::White {
            from + 8
        } else {
            from - 8
        };
        proof {
            assert(mid as int == sq_at(file_of(fi), rank_of(fi) + pawn_dir(c)));
        }
        Some(Square::new(mid))
    } else {
        None
    };
    let new_half: u16 = if p == Piece::Pawn || dest_occupied {
        0
    } else {
        state.halfmove_clock + 1
    };
    let mut wk = state.white_king;
    let mut bk = state.black_king;
    if p == Piece::King {
        if c == Color::White {
            wk = to;
        } else {
            bk = to;
        }
    }
    let r = GameState {
        board: nb,
        turn: c.opposite(),
        castling: new_castling,
        en_passant: new_ep,
        halfmove_clock: new_half,
        white_king: wk,
        black_king: bk,
    };
    proof {
        assert(r@.board =~= board_after(pos, fi, ti, promo));
        assert(r@ == apply_move(pos, fi, ti, promo));
        if c == Color::White && p == Piece::King {
            lemma_apply_moved_king(pos, fi, ti, promo);
        } else {
            lemma_apply_kept_king(pos, fi, ti, promo, Color::White, state.white_king as int);
        }
        if c == Color::Black && p == Piece::King {
            lemma_apply_moved_king(pos, fi, ti, promo);
        } else {
            lemma_apply_kept_king(pos, fi, ti, promo, Color::Black, state.black_king as int);
        }
        assert(r.kings_cached());
        lemma_apply_unique(pos, fi, ti, promo, Color::White, state.white_king as int);
        lemma_apply_unique(pos, fi, ti, promo, Color::Black, state.black_king as int);
    }
    r
}

/// Whether the move is fully legal in this position: pseudo-legal, and
/// playing it leaves the mover's own king safe.
pub(crate) fn compute_move_legal(
    engine: &Engine,
    state: &GameState,
    from: u8,
    to: u8,
    promo: Option<Piece>,
) -> (r: bool)
    requires
        state.wf(),
        state@.halfmove_clock < 65535,
        from < 64,
        to < 64,
    ensures
        r == move_legal(state@, from as int, to as int, promo),
{
    if !compute_pseudo_legal(engine, state, from, to, promo) {
        return false;
    }
    let next = compute_apply(state, from, to, promo);
    !compute_in_check(engine, &next, state.turn)
}

/// A legal move carries a well-formed position to a well-formed one:
/// the board keeps its 64 squares and one king per side, the mover is
/// not left in check (that is exactly what legality adds over
/// pseudo-legality), and the new en-passant record is sound.
pub proof fn lemma_apply_wf(pos: PositionView, from: int, to: int, promo: Option<Piece>)
    requires
        position_wf(pos),
        move_legal(pos, from, to, promo),
    ensures
        position_wf(apply_move(pos, from, to, promo)),
{
    let c = pos.turn;
    let after = apply_move(pos, from, to, promo);
    lemma_no_king_capture(pos, from, to, promo);
    assert(after.board.len() == 64);
    assert(exists|k0: int| unique_king(pos.board, Color::White, k0));
    let wk = choose|k0: int| unique_king(pos.board, Color::White, k0);
    assert(exists|k0: int| unique_king(pos.board, Color::Black, k0));
    let bk = choose|k0: int| unique_king(pos.board, Color::Black, k0);
    if pos.board[from] == Some((Piece::King, Color::White)) {
        lemma_apply_moved_king(pos, from, to, promo);
    } else {
        lemma_apply_kept_king(pos, from, to, promo, Color::White, wk);
    }
    lemma_apply_unique(pos, from, to, promo, Color::White, wk);
    let nwk = if pos.board[from] == Some((Piece::King, Color::White)) {
        to
    } else {
        wk
    };
    assert(unique_king(after.board, Color::White, nwk));
    if pos.board[from] == Some((Piece::King, Color::Black)) {
        lemma_apply_moved_king(pos, from, to, promo);
    } else {
        lemma_apply_kept_king(pos, from, to, promo, Color::Black, bk);
    }
    lemma_apply_unique(pos, from, to, promo, Color::Black, bk);
    let nbk = if pos.board[from] == Some((Piece::King, Color::Black)) {
        to
    } else {
        bk
    };
    assert(unique_king(after.board, Color::Black, nbk));
    assert(after.turn.spec_opposite() == c);
    assert(!in_check(after, c));
    match after.en_passant {
        None => {},
        Some(e) => {
            lemma_sq_decompose(from);
            lemma_sq_decompose(to);
            let d = pawn_dir(c);
            assert(pos.board[from] matches Some(pc) && pc.0 == Piece::Pawn);
            assert(rank_of(to) == rank_of(from) + 2 * d);
            assert(e == sq_at(file_of(from), rank_of(from) + d));
            assert(!pawn_capture_ok(pos, from, to));
            assert(pawn_push_ok(pos, from, to));
            assert(file_of(to) == file_of(from) && rank_of(from) == pawn_start_rank(c));
            assert(!is_promotion_move(pos, from, to));
            assert(promo is None);
            if c == Color::White {
                assert(e == from + 8);
                assert(to == from + 16);
            } else {
                assert(e == from - 8);
                assert(to == from - 16);
            }
            assert(rank_of(e) == rank_of(from) + d);
            assert(after.board == board_after_main(pos.board, c, Piece::Pawn, from, to, promo));
            assert(after.board[e] == pos.board[e]);
            assert(pos.board[e] is None);
            assert(after.board[to] == Some((Piece::Pawn, c)));
            assert(e - 8 * pawn_dir(after.turn) == to);
            assert(ep_wf(after));
        },
    }
}

// ---------------------------------------------------------------------
// Move generation.
// ---------------------------------------------------------------------

/// The list holds the square with the given index.
pub open spec fn dests_has(dests: Seq<Square>, t: int) -> bool {
    exists|j: int| 0 <= j < dests.len() && (#[trigger] dests[j])@ == t
}

/// The list holds exactly the destinations of the legal moves from
/// `from` (with the promotion piece defaulting to Queen), in strictly
/// ascending order of square index.
pub open spec fn dests_ok(pos: PositionView, from: int, dests: Seq<Square>) -> bool {
    &&& forall|j: int|
        0 <= j < dests.len() ==> move_legal(
            pos,
            from,
            (#[trigger] dests[j])@,
            default_promotion(pos, from, dests[j]@),
        )
    &&& forall|t: int|
        #![trigger dests_has(dests, t)]
        #![trigger move_legal(pos, from, t, default_promotion(pos, from, t))]
        0 <= t < 64 ==> dests_has(dests, t) == move_legal(
            pos,
            from,
            t,
            default_promotion(pos, from, t),
        )
    &&& forall|j1: int, j2: int|
        0 <= j1 < j2 < dests.len() ==> (#[trigger] dests[j1])@ < (#[trigger] dests[j2])@
}

/// The promotion piece filled in when the caller names none: Queen on
/// a promotion move, nothing otherwise.
pub(crate) fn compute_default_promotion(state: &GameState, from: u8, to: u8) -> (r: Option<Piece>)
    requires
        from < 64,
        to < 64,
    ensures
        r == default_promotion(state@, from as int, to as int),
{
    let is_pawn = match state.board.get_piece_at(from) {
        Some((p, _)) => p == Piece::Pawn,
        None => false,
    };
    let promo_rank: u8 = if state.turn == Color::White {
        7
    } else {
        0
    };
    if is_pawn && to / 8 == promo_rank {
        Some(Piece::Queen)
    } else {
        None
    }
}

/// The destinations of every legal move from the given origin square,
/// in ascending order.
pub(crate) fn compute_dests_from(engine: &Engine, state: &GameState, from: u8) -> (r: Vec<Square>)
    requires
        state.wf(),
        state@.halfmove_clock < 65535,
        from < 64,
    ensures
        dests_ok(state@, from as int, r@),
{
    let mut v: Vec<Square> = Vec::new();
    let mut t: u8 = 0;
    while t < 64
        invariant
            state.wf(),
            state@.halfmove_clock < 65535,
            from < 64,
            t <= 64,
            forall|j: int| 0 <= j < v@.len() ==> (#[trigger] v@[j])@ < t,
            forall|j: int|
                0 <= j < v@.len() ==> move_legal(
                    state@,
                    from as int,
                    (#[trigger] v@[j])@,
                    default_promotion(state@, from as int, v@[j]@),
                ),
            forall|j1: int, j2: int|
                0 <= j1 < j2 < v@.len() ==> (#[trigger] v@[j1])@ < (#[trigger] v@[j2])@,
            forall|u: int|
                #![trigger dests_has(v@, u)]
                #![trigger move_legal(state@, from as int, u, default_promotion(state@, from as int, u))]
                0 <= u < t ==> dests_has(v@, u) == move_legal(
                    state@,
                    from as int,
                    u,
                    default_promotion(state@, from as int, u),
                ),
        decreases 64 - t,
    {
        let ghost old_v = v@;
        let promo = compute_default_promotion(state, from, t);
        let is_legal = compute_move_legal(engine, state, from, t, promo);
        if is_legal {
            v.push(Square::new(t));
            proof {
                assert(v@[v@.len() - 1]@ == t as int);
            }
        }
        proof {
            assert forall|u: int| 0 <= u < t + 1 implies dests_has(v@, u) == move_legal(
                state@,
                from as int,
                u,
                default_promotion(state@, from as int, u),
            ) by {
                if u < t {
                    if dests_has(old_v, u) {
                        let j = choose|j: int| 0 <= j < old_v.len() && old_v[j]@ == u;
                        assert(v@[j]@ == u);
                        assert(dests_has(v@, u));
                    }
                    if dests_has(v@, u) {
                        let j = choose|j: int| 0 <= j < v@.len() && v@[j]@ == u;
                        assert(j < old_v.len());
                        assert(dests_has(old_v, u));
                    }
                } else {
                    assert(u == t as int);
                    if is_legal {
                        assert(v@[v@.len() - 1]@ == u);
                        assert(dests_has(v@, u));
                    } else {
                        if dests_has(v@, u) {
                            let j = choose|j: int| 0 <= j < v@.len() && v@[j]@ == u;
                            assert(v@[j]@ < t);
                            assert(false);
                        }
                    }
                }
            }
        }
        t = t + 1;
    }
    v
}

/// One entry per origin square: the destinations of every legal move
/// from it, each list in ascending order.
pub(crate) fn compute_legal_map(engine: &Engine, state: &GameState) -> (r: Vec<Vec<Square>>)
    requires
        state.wf(),
        state@.halfmove_clock < 65535,
    ensures
        r@.len() == 64,
        forall|f: int| 0 <= f < 64 ==> dests_ok(state@, f, (#[trigger] r@[f])@),
{
    let mut r: Vec<Vec<Square>> = Vec::new();
    let mut f: u8 = 0;
    while f < 64
        invariant
            state.wf(),
            state@.halfmove_clock < 65535,
            f <= 64,
            r@.len() == f,
            forall|g: int| 0 <= g < f ==> dests_ok(state@, g, (#[trigger] r@[g])@),
        decreases 64 - f,
    {
        r.push(compute_dests_from(engine, state, f));
        f = f + 1;
    }
    r
}

/// Whether a legal-move map built by `compute_legal_map` holds any
/// move at all: the map is exact, so this decides `has_legal_move`.
pub(crate) fn compute_map_has_move(state: &GameState, map: &Vec<Vec<Square>>) -> (r: bool)
    requires
        map@.len() == 64,
        forall|f: int| 0 <= f < 64 ==> dests_ok(state@, f, (#[trigger] map@[f])@),
    ensures
        r == has_legal_move(state@),
{
    let mut f: u8 = 0;
    while f < 64
        invariant
            f <= 64,
            map@.len() == 64,
            forall|g: int| 0 <= g < 64 ==> dests_ok(state@, g, (#[trigger] map@[g])@),
            forall|g: int| 0 <= g < f ==> (#[trigger] map@[g])@.len() == 0,
        decreases 64 - f,
    {
        let row: &Vec<Square> = &map[f as usize];
        if row.len() > 0 {
            let d0 = row[0];
            proof {
                assert(move_legal(
                    state@,
                    f as int,
                    d0@,
                    default_promotion(state@, f as int, d0@),
                ));
            }
            return true;
        }
        f = f + 1;
    }
    proof {
        assert forall|from: int, to: int|
            !(#[trigger] move_legal(state@, from, to, default_promotion(state@, from, to))) by {
            if move_legal(state@, from, to, default_promotion(state@, from, to)) {
                assert(on_board(from) && on_board(to));
                assert(dests_ok(state@, from, map@[from]@));
                assert(dests_has(map@[from]@, to));
                let j = choose|j: int| 0 <= j < map@[from]@.len() && map@[from]@[j]@ == to;
                assert(false);
            }
        }
    }
    false
}

/// The standard starting position is well-formed: one king per side,
/// and no White piece reaches e8 (every White piece still stands on
/// the first two ranks, too far for a step or a jump and not on one of
/// e8's lines).
pub proof fn lemma_initial_wf()
    ensures
        position_wf(crate::state::initial_position()),
{
    let pos = crate::state::initial_position();
    let b = pos.board;
    assert(b[4] == Some((Piece::King, Color::White)));
    assert(b[60] == Some((Piece::King, Color::Black)));
    assert forall|s: int| is_king_square(b, Color::White, s) implies s == 4 by {
        lemma_sq_decompose(s);
    }
    assert forall|s: int| is_king_square(b, Color::Black, s) implies s == 60 by {
        lemma_sq_decompose(s);
    }
    assert(unique_king(b, Color::White, 4));
    assert(unique_king(b, Color::Black, 60));
    assert forall|s: int| !square_attacked_by(b, 60, Color::White, s) by {
        if on_board(s) {
            lemma_sq_decompose(s);
            match b[s] {
                Some(pc) => {
                    if pc.1 == Color::White {
                        assert(rank_of(s) == 0 || rank_of(s) == 1);
                        assert(rank_of(60) == 7 && file_of(60) == 4);
                        match pc.0 {
                            Piece::Pawn => {
                                assert(rank_of(s) == 1);
                                assert(!pawn_capture_step(Color::White, s, 60));
                            },
                            Piece::Knight => {
                                assert(!knight_jump(s, 60));
                            },
                            Piece::King => {
                                assert(!king_step(s, 60));
                            },
                            Piece::Rook => {
                                assert(rank_of(s) == 0 && (file_of(s) == 0 || file_of(s) == 7));
                                assert(!same_rook_line(s, 60));
                            },
                            Piece::Bishop => {
                                assert(rank_of(s) == 0 && (file_of(s) == 2 || file_of(s) == 5));
                                assert(!same_diagonal(s, 60));
                            },
                            Piece::Queen => {
                                assert(rank_of(s) == 0 && file_of(s) == 3);
                                assert(!same_rook_line(s, 60));
                                assert(!same_diagonal(s, 60));
                            },
                        }
                    }
                },
                None => {},
            }
        }
    }
    assert forall|k: int|
        !(#[trigger] is_king_square(b, Color::Black, k) && square_attacked(
            b,
            k,
            Color::White,
        )) by {
        if is_king_square(b, Color::Black, k) {
            assert(k == 60);
            assert(!square_attacked(b, 60, Color::White));
        }
    }
    assert(!in_check(pos, Color::Black));
}

// ---------------------------------------------------------------------
// Draw ingredients.
// ---------------------------------------------------------------------

/// Count of pieces other than kings among the first `n` squares.
pub open spec fn nonking_count(board: Seq<SquareContent>, n: int) -> int
    decreases n,
{
    if n <= 0 {
        0
    } else {
        nonking_count(board, n - 1) + (match board[n - 1] {
            Some(pc) => if pc.0 == Piece::King {
                0int
            } else {
                1int
            },
            None => 0int,
        })
    }
}

/// A pawn, rook or queen stands among the first `n` squares.
pub open spec fn has_major_or_pawn(board: Seq<SquareContent>, n: int) -> bool
    decreases n,
{
    if n <= 0 {
        false
    } else {
        has_major_or_pawn(board, n - 1) || (match board[n - 1] {
            Some(pc) => pc.0 == Piece::Pawn || pc.0 == Piece::Rook || pc.0 == Piece::Queen,
            None => false,
        })
    }
}

/// Neither side can ever force checkmate: no pawns, rooks or queens,
/// and at most one knight or bishop on the whole board.
pub open spec fn insufficient_material(board: Seq<SquareContent>) -> bool {
    !has_major_or_pawn(board, 64) && nonking_count(board, 64) <= 1
}

proof fn lemma_major_monotone(board: Seq<SquareContent>, n: int, m: int)
    requires
        0 <= n <= m,
        has_major_or_pawn(board, n),
    ensures
        has_major_or_pawn(board, m),
    decreases m,
{
    if n < m {
        lemma_major_monotone(board, n, m - 1);
    }
}

/// Whether the placement leaves neither side able to force mate.
pub(crate) fn compute_insufficient_material(board: &ChessBoard) -> (r: bool)
    ensures
        r == insufficient_material(board@),
{
    let mut count: u8 = 0;
    let mut i: u8 = 0;
    while i < 64
        invariant
            i <= 64,
            count <= i,
            count == nonking_count(board@, i as int),
            !has_major_or_pawn(board@, i as int),
        decreases 64 - i,
    {
        match board.get_piece_at(i) {
            None => {},
            Some((p, _)) => {
                match p {
                    Piece::King => {},
                    Piece::Knight | Piece::Bishop => {
                        count = count + 1;
                    },
                    Piece::Pawn | Piece::Rook | Piece::Queen => {
                        proof {
                            assert(has_major_or_pawn(board@, i as int + 1));
                            lemma_major_monotone(board@, i as int + 1, 64);
                        }
                        return false;
                    },
                }
            },
        }
        i = i + 1;
    }
    count <= 1
}

/// Two snapshots equal in every rule-relevant part: placement, side
/// to move, castling rights and en-passant record.  The half-move
/// clocks may differ.
pub open spec fn same_position(a: PositionView, b: PositionView) -> bool {
    &&& a.board == b.board
    &&& a.turn == b.turn
    &&& a.castling == b.castling
    &&& a.en_passant == b.en_passant
}

/// How many of the first `n` recorded positions equal the given one.
pub open spec fn occurrence_count(past: Seq<PositionView>, pos: PositionView, n: int) -> int
    decreases n,
{
    if n <= 0 {
        0
    } else {
        occurrence_count(past, pos, n - 1) + (if same_position(past[n - 1], pos) {
            1int
        } else {
            0int
        })
    }
}

/// Whether two snapshots describe the same position for the purpose
/// of the repetition rule.
pub(crate) fn compute_same_position(a: &GameState, b: &GameState) -> (r: bool)
    requires
        a@.board.len() == 64,
        b@.board.len() == 64,
    ensures
        r == same_position(a@, b@),
{
    if a.turn != b.turn {
        return false;
    }
    if a.castling.white_king_side != b.castling.white_king_side || a.castling.white_queen_side
        != b.castling.white_queen_side || a.castling.black_king_side != b.castling.black_king_side
        || a.castling.black_queen_side != b.castling.black_queen_side {
        return false;
    }
    let ep_eq = match (a.en_passant, b.en_passant) {
        (None, None) => true,
        (Some(x), Some(y)) => x.get_value() == y.get_value(),
        _ => false,
    };
    if !ep_eq {
        return false;
    }
    let mut i: u8 = 0;
    while i < 64
        invariant
            i <= 64,
            a@.board.len() == 64,
            b@.board.len() == 64,
            forall|j: int| 0 <= j < i ==> a@.board[j] == b@.board[j],
        decreases 64 - i,
    {
        let ca = a.board.get_piece_at(i);
        let cb = b.board.get_piece_at(i);
        let eq = match (ca, cb) {
            (None, None) => true,
            (Some((p1, c1)), Some((p2, c2))) => p1 == p2 && c1 == c2,
            _ => false,
        };
        if !eq {
            return false;
        }
        i = i + 1;
    }
    proof {
        assert(a@.board =~= b@.board);
    }
    true
}

// ---------------------------------------------------------------------
// Check threats.
// ---------------------------------------------------------------------

/// The piece standing on this square gives check to the side to
/// move's king.
pub open spec fn check_threat(pos: PositionView, s: int) -> bool {
    exists|k: int|
        #[trigger] is_king_square(pos.board, pos.turn, k) && square_attacked_by(
            pos.board,
            k,
            pos.turn.spec_opposite(),
            s,
        )
}

/// The list holds the square with the given index.
pub open spec fn threat_has(threats: Seq<Square>, t: int) -> bool {
    exists|j: int| 0 <= j < threats.len() && (#[trigger] threats[j])@ == t
}

/// The list holds exactly the squares giving check to the side to
/// move's king, in strictly ascending order of square index.
pub open spec fn threats_ok(pos: PositionView, threats: Seq<Square>) -> bool {
    &&& forall|j: int| 0 <= j < threats.len() ==> check_threat(pos, (#[trigger] threats[j])@)
    &&& forall|t: int|
        #![trigger threat_has(threats, t)]
        #![trigger check_threat(pos, t)]
        0 <= t < 64 ==> threat_has(threats, t) == check_threat(pos, t)
    &&& forall|j1: int, j2: int|
        0 <= j1 < j2 < threats.len() ==> (#[trigger] threats[j1])@ < (#[trigger] threats[j2])@
}

// ---------------------------------------------------------------------
// Validating a stored position.
// ---------------------------------------------------------------------

/// Scans the placement for the given side's king: its square when
/// the side has exactly one king, nothing otherwise.
pub(crate) fn find_unique_king(board: &ChessBoard, c: Color) -> (r: Option<u8>)
    ensures
        match r {
            Some(k) => unique_king(board@, c, k as int),
            None => !(exists|k0: int| unique_king(board@, c, k0)),
        },
{
    let mut found: Option<u8> = None;
    let mut i: u8 = 0;
    while i < 64
        invariant
            i <= 64,
            match found {
                None => forall|s: int| 0 <= s < i ==> board@[s] != Some((Piece::King, c)),
                Some(k) => k < i && board@[k as int] == Some((Piece::King, c)) && forall|s: int|
                    0 <= s < i && s != k ==> board@[s] != Some((Piece::King, c)),
            },
        decreases 64 - i,
    {
        let hit = match board.get_piece_at(i) {
            Some((p, pc)) => p == Piece::King && pc == c,
            None => false,
        };
        if hit {
            match found {
                None => {
                    found = Some(i);
                },
                Some(k1) => {
                    proof {
                        assert(is_king_square(board@, c, k1 as int));
                        assert(is_king_square(board@, c, i as int));
                        assert forall|k0: int| !unique_king(board@, c, k0) by {
                            if unique_king(board@, c, k0) {
                                assert(k1 as int == k0);
                                assert(i as int == k0);
                            }
                        }
                    }
                    return None;
                },
            }
        }
        i = i + 1;
    }
    proof {
        match found {
            None => {
                assert forall|k0: int| !unique_king(board@, c, k0) by {}
            },
            Some(k) => {
                assert(unique_king(board@, c, k as int));
            },
        }
    }
    found
}

/// Checks from scratch that a snapshot is well-formed: 64 squares,
/// exactly one king per side with the cached squares agreeing, a sound
/// en-passant record, and the side that just moved not in check.  Used
/// when a position arrives from storage rather than from play.
pub(crate) fn compute_state_wf(engine: &Engine, state: &GameState) -> (r: bool)
    ensures
        r == state.wf(),
{
    let n: usize = state.board.square_count();
    let wk = match find_unique_king(&state.board, Color::White) {
        Some(k) => k,
        None => {
            return false;
        },
    };
    let bk = match find_unique_king(&state.board, Color::Black) {
        Some(k) => k,
        None => {
            return false;
        },
    };
    if state.white_king != wk || state.black_king != bk {
        proof {
            if state.kings_cached() {
                assert(is_king_square(state@.board, Color::White, state.white_king as int));
                assert(is_king_square(state@.board, Color::Black, state.black_king as int));
                assert(state.white_king as int == wk as int);
                assert(state.black_king as int == bk as int);
            }
        }
        return false;
    }
    let ep_ok: bool = match state.en_passant {
        None => true,
        Some(e) => {
            let ev = e.get_value();
            let required_rank: u8 = if state.turn == Color::White {
                5
            } else {
                2
            };
            if ev / 8 != required_rank {
                false
            } else if state.board.get_piece_at(ev).is_some() {
                false
            } else {
                let behind: u8 = if state.turn == Color::White {
                    ev - 8
                } else {
                    ev + 8
                };
                proof {
                    assert(behind as int == ev as int - 8 * pawn_dir(state.turn));
                }
                match state.board.get_piece_at(behind) {
                    Some((p2, c2)) => p2 == Piece::Pawn && c2 == state.turn.opposite(),
                    None => false,
                }
            }
        },
    };
    if !ep_ok {
        return false;
    }
    let opp = state.turn.opposite();
    if compute_in_check(engine, state, opp) {
        return false;
    }
    true
}

/// Whether two snapshots describe exactly the same position, the
/// half-move clock included.
pub(crate) fn compute_states_equal(a: &GameState, b: &GameState) -> (r: bool)
    requires
        a@.board.len() == 64,
        b@.board.len() == 64,
    ensures
        r == (a@ == b@),
{
    let same = compute_same_position(a, b);
    let r = same && a.halfmove_clock == b.halfmove_clock;
    proof {
        if r {
            assert(a@ == b@);
        }
    }
    r
}

/// Whether the given side's king is under attack in this position.
pub(crate) fn compute_in_check(engine: &Engine, state: &GameState, c: Color) -> (r: bool)
    requires
        state.kings_cached(),
        forall|k: int| is_king_square(state@.board, c, k) ==> k == state.king_square_spec(c),
    ensures
        r == in_check(state@, c),
{
    let k = state.king_square(c);
    let r = compute_square_attacked(engine, &state.board, k, c.opposite());
    proof {
        if r {
            assert(is_king_square(state@.board, c, k as int));
        } else {
            assert forall|kk: int|
                !(#[trigger] is_king_square(state@.board, c, kk) && square_attacked(
                    state@.board,
                    kk,
                    c.spec_opposite(),
                )) by {
                if is_king_square(state@.board, c, kk) {
                    assert(kk == k as int);
                }
            }
        }
    }
    r
}

} // verus!
