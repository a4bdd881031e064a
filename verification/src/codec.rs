//! The storage format for games: a flat byte string, every integer
//! little-endian, every piece of a position written in a fixed place.
//! The writers state exactly which bytes they produce; the readers
//! recover every value a writer put in, which is what the round-trip
//! law of `Game::serialize` and `Game::deserialize` rests on.

use vstd::prelude::*;
use crate::board::{ChessBoard, SquareContent};
use crate::color::Color;
use crate::moves::MoveView;
use crate::pgn::PgnView;
use crate::piece::Piece;
use crate::square::Square;
use crate::state::{CastlingRights, GameState, PositionView};

verus! {

// ---------------------------------------------------------------------
// Little-endian integers.
// ---------------------------------------------------------------------

/// The eight little-endian bytes of a 64-bit value.
pub open spec fn u64_le(x: int) -> Seq<u8> {
    seq![
        (x % 256) as u8,
        (x / 256 % 256) as u8,
        (x / 65536 % 256) as u8,
        (x / 16777216 % 256) as u8,
        (x / 4294967296 % 256) as u8,
        (x / 1099511627776 % 256) as u8,
        (x / 281474976710656 % 256) as u8,
        (x / 72057594037927936 % 256) as u8,
    ]
}

/// The two little-endian bytes of a 16-bit value.
pub open spec fn u16_le(x: int) -> Seq<u8> {
    seq![(x % 256) as u8, (x / 256 % 256) as u8]
}

proof fn lemma_u64_le_value(x: int)
    requires
        0 <= x < 0x1_0000_0000_0000_0000,
    ensures
        ({
            let b = u64_le(x);
            x == b[0] + 256 * (b[1] as int) + 65536 * (b[2] as int) + 16777216 * (b[3] as int)
                + 4294967296 * (b[4] as int) + 1099511627776 * (b[5] as int) + 281474976710656 * (
            b[6] as int) + 72057594037927936 * (b[7] as int)
        }),
{
    let q1 = x / 256;
    let q2 = q1 / 256;
    let q3 = q2 / 256;
    let q4 = q3 / 256;
    let q5 = q4 / 256;
    let q6 = q5 / 256;
    let q7 = q6 / 256;
    assert(q1 == x / 256);
    assert(q2 == x / 65536) by (nonlinear_arith)
        requires
            q1 == x / 256,
            q2 == q1 / 256,
            x >= 0,
    ;
    assert(q3 == x / 16777216) by (nonlinear_arith)
        requires
            q2 == x / 65536,
            q3 == q2 / 256,
            x >= 0,
    ;
    assert(q4 == x / 4294967296) by (nonlinear_arith)
        requires
            q3 == x / 16777216,
            q4 == q3 / 256,
            x >= 0,
    ;
    assert(q5 == x / 1099511627776) by (nonlinear_arith)
        requires
            q4 == x / 4294967296,
            q5 == q4 / 256,
            x >= 0,
    ;
    assert(q6 == x / 281474976710656) by (nonlinear_arith)
        requires
            q5 == x / 1099511627776,
            q6 == q5 / 256,
            x >= 0,
    ;
    assert(q7 == x / 72057594037927936) by (nonlinear_arith)
        requires
            q6 == x / 281474976710656,
            q7 == q6 / 256,
            x >= 0,
    ;
    assert(q7 < 256);
    assert(x == x % 256 + 256 * q1);
    assert(q1 == q1 % 256 + 256 * q2);
    assert(q2 == q2 % 256 + 256 * q3);
    assert(q3 == q3 % 256 + 256 * q4);
    assert(q4 == q4 % 256 + 256 * q5);
    assert(q5 == q5 % 256 + 256 * q6);
    assert(q6 == q6 % 256 + 256 * q7);
    assert(q7 % 256 == q7);
}

/// Appends the eight little-endian bytes of `x`.
pub(crate) fn push_u64(out: &mut Vec<u8>, x: u64)
    ensures
        final(out)@ == old(out)@ + u64_le(x as int),
{
    out.push((x % 256) as u8);
    out.push((x / 256 % 256) as u8);
    out.push((x / 65536 % 256) as u8);
    out.push((x / 16777216 % 256) as u8);
    out.push((x / 4294967296 % 256) as u8);
    out.push((x / 1099511627776 % 256) as u8);
    out.push((x / 281474976710656 % 256) as u8);
    out.push((x / 72057594037927936 % 256) as u8);
    proof {
        assert(final(out)@ =~= old(out)@ + u64_le(x as int));
    }
}

/// Appends the two little-endian bytes of `x`.
pub(crate) fn push_u16(out: &mut Vec<u8>, x: u16)
    ensures
        final(out)@ == old(out)@ + u16_le(x as int),
{
    out.push((x % 256) as u8);
    out.push((x / 256 % 256) as u8);
    proof {
        assert(final(out)@ =~= old(out)@ + u16_le(x as int));
    }
}

/// Reads the eight little-endian bytes at `pos`.  Recovers exactly
/// the value `u64_le` wrote there.
pub(crate) fn read_u64(bytes: &Vec<u8>, pos: usize) -> (r: Option<(u64, usize)>)
    ensures
        r is Some <==> pos + 8 <= bytes@.len(),
        r matches Some(xp) ==> xp.1 == pos + 8,
        forall|v: int|
            (0 <= v < 0x1_0000_0000_0000_0000 && pos + 8 <= bytes@.len() && bytes@.subrange(
                pos as int,
                pos as int + 8,
            ) == u64_le(v)) ==> (r matches Some(xp) && xp.0 == v),
{
    if pos >= bytes.len() || bytes.len() - pos < 8 {
        return None;
    }
    let b0 = bytes[pos] as u64;
    let b1 = bytes[pos + 1] as u64;
    let b2 = bytes[pos + 2] as u64;
    let b3 = bytes[pos + 3] as u64;
    let b4 = bytes[pos + 4] as u64;
    let b5 = bytes[pos + 5] as u64;
    let b6 = bytes[pos + 6] as u64;
    let b7 = bytes[pos + 7] as u64;
    let x = b0 + 256 * b1 + 65536 * b2 + 16777216 * b3 + 4294967296 * b4 + 1099511627776 * b5
        + 281474976710656 * b6 + 72057594037927936 * b7;
    proof {
        assert forall|v: int|
            (0 <= v < 0x1_0000_0000_0000_0000 && bytes@.subrange(pos as int, pos as int + 8)
                == u64_le(v)) implies x == v by {
            let sub = bytes@.subrange(pos as int, pos as int + 8);
            assert(sub[0] == bytes@[pos as int]);
            assert(sub[1] == bytes@[pos as int + 1]);
            assert(sub[2] == bytes@[pos as int + 2]);
            assert(sub[3] == bytes@[pos as int + 3]);
            assert(sub[4] == bytes@[pos as int + 4]);
            assert(sub[5] == bytes@[pos as int + 5]);
            assert(sub[6] == bytes@[pos as int + 6]);
            assert(sub[7] == bytes@[pos as int + 7]);
            lemma_u64_le_value(v);
        }
    }
    Some((x, pos + 8))
}

/// Reads the two little-endian bytes at `pos`.  Recovers exactly the
/// value `u16_le` wrote there.
pub(crate) fn read_u16(bytes: &Vec<u8>, pos: usize) -> (r: Option<(u16, usize)>)
    ensures
        r is Some <==> pos + 2 <= bytes@.len(),
        r matches Some(xp) ==> xp.1 == pos + 2,
        forall|v: int|
            (0 <= v < 65536 && pos + 2 <= bytes@.len() && bytes@.subrange(
                pos as int,
                pos as int + 2,
            ) == u16_le(v)) ==> (r matches Some(xp) && xp.0 == v),
{
    if pos >= bytes.len() || bytes.len() - pos < 2 {
        return None;
    }
    let b0 = bytes[pos] as u16;
    let b1 = bytes[pos + 1] as u16;
    let x = b0 + 256 * b1;
    proof {
        assert forall|v: int|
            (0 <= v < 65536 && bytes@.subrange(pos as int, pos as int + 2) == u16_le(
                v,
            )) implies x == v by {
            let sub = bytes@.subrange(pos as int, pos as int + 2);
            assert(sub[0] == bytes@[pos as int]);
            assert(sub[1] == bytes@[pos as int + 1]);
            assert(v == v % 256 + 256 * (v / 256));
            assert(v / 256 < 256);
            assert(v / 256 % 256 == v / 256);
        }
    }
    Some((x, pos + 2))
}

// ---------------------------------------------------------------------
// Length-prefixed byte strings.
// ---------------------------------------------------------------------

/// A byte string as stored: its length, then its bytes.
pub open spec fn blob(s: Seq<u8>) -> Seq<u8> {
    u64_le(s.len() as int) + s
}

/// Appends the length of `v`, then its bytes.
pub(crate) fn push_blob(out: &mut Vec<u8>, v: &Vec<u8>)
    ensures
        final(out)@ == old(out)@ + blob(v@),
{
    push_u64(out, v.len() as u64);
    let mut i: usize = 0;
    while i < v.len()
        invariant
            i <= v@.len(),
            out@ == old(out)@ + u64_le(v@.len() as int) + v@.subrange(0, i as int),
        decreases v@.len() - i,
    {
        let ghost prev = out@;
        out.push(v[i]);
        proof {
            assert(out@ =~= old(out)@ + u64_le(v@.len() as int) + v@.subrange(0, i as int + 1));
        }
        i = i + 1;
    }
    proof {
        assert(v@.subrange(0, v@.len() as int) =~= v@);
        assert(final(out)@ =~= old(out)@ + blob(v@));
    }
}

/// Reads a length-prefixed byte string at `pos`.  Recovers exactly
/// the bytes `blob` wrote there.
pub(crate) fn read_blob(bytes: &Vec<u8>, pos: usize) -> (r: Option<(Vec<u8>, usize)>)
    ensures
        r matches Some(vp) ==> pos <= vp.1 <= bytes@.len(),
        forall|s: Seq<u8>|
            (pos + 8 + s.len() <= bytes@.len() && bytes@.subrange(
                pos as int,
                pos as int + 8 + s.len(),
            ) == blob(s)) ==> (r matches Some(vp) && vp.0@ == s && vp.1 == pos + 8 + s.len()),
{
    let ghost gb = bytes@;
    let n_pos = match read_u64(bytes, pos) {
        Some(np) => np,
        None => {
            proof {
                assert forall|s: Seq<u8>|
                    !(pos + 8 + s.len() <= gb.len() && gb.subrange(
                        pos as int,
                        pos as int + 8 + s.len(),
                    ) == blob(s)) by {
                    if pos + 8 + s.len() <= gb.len() {
                        assert(pos + 8 <= gb.len());
                    }
                }
            }
            return None;
        },
    };
    let n = n_pos.0;
    let mut pos2 = n_pos.1;
    let remaining = bytes.len() - pos2;
    if n > remaining as u64 {
        proof {
            assert forall|s: Seq<u8>|
                !(pos + 8 + s.len() <= gb.len() && gb.subrange(
                    pos as int,
                    pos as int + 8 + s.len(),
                ) == blob(s)) by {
                if pos + 8 + s.len() <= gb.len() && gb.subrange(
                    pos as int,
                    pos as int + 8 + s.len(),
                ) == blob(s) {
                    let sub = gb.subrange(pos as int, pos as int + 8 + s.len());
                    assert(sub.subrange(0, 8) =~= gb.subrange(pos as int, pos as int + 8));
                    assert(blob(s).subrange(0, 8) =~= u64_le(s.len() as int));
                    assert(n as int == s.len());
                }
            }
        }
        return None;
    }
    let len = n as usize;
    let total = bytes.len();
    let mut v: Vec<u8> = Vec::new();
    let mut i: usize = 0;
    while i < len
        invariant
            i <= len,
            pos2 == pos + 8,
            len + pos2 <= total,
            total == bytes@.len(),
            v@.len() == i,
            gb == bytes@,
            forall|j: int| 0 <= j < i ==> v@[j] == bytes@[pos2 + j],
        decreases len - i,
    {
        v.push(bytes[pos2 + i]);
        i = i + 1;
    }
    proof {
        assert forall|s: Seq<u8>|
            (pos + 8 + s.len() <= gb.len() && gb.subrange(pos as int, pos as int + 8 + s.len())
                == blob(s)) implies (v@ == s && len == s.len()) by {
            let sub = gb.subrange(pos as int, pos as int + 8 + s.len());
            assert(sub.subrange(0, 8) =~= gb.subrange(pos as int, pos as int + 8));
            assert(blob(s).subrange(0, 8) =~= u64_le(s.len() as int));
            assert(n as int == s.len());
            assert forall|j: int| 0 <= j < s.len() implies v@[j] == s[j] by {
                assert(sub[8 + j] == gb[pos as int + 8 + j]);
                assert(blob(s)[8 + j] == s[j]);
            }
            assert(v@ =~= s);
        }
    }
    Some((v, pos2 + len))
}

// ---------------------------------------------------------------------
// Board squares, positions and moves.
// ---------------------------------------------------------------------

/// The byte for one square: 0 for empty, else 1 + piece + 6 * side.
pub open spec fn content_code(c: SquareContent) -> u8 {
    match c {
        None => 0u8,
        Some(pc) => (1 + pc.0.spec_ordinal() + 6 * pc.1.spec_ordinal()) as u8,
    }
}

/// The 64 bytes of a placement.
pub open spec fn board_bytes(b: Seq<SquareContent>) -> Seq<u8> {
    Seq::new(64, |i: int| content_code(b[i]))
}

/// The byte for an en-passant record: the square, or 64 for none.
pub open spec fn ep_code(e: Option<int>) -> u8 {
    match e {
        None => 64u8,
        Some(s) => s as u8,
    }
}

/// The byte for a castling right.
pub open spec fn flag_code(b: bool) -> u8 {
    if b {
        1u8
    } else {
        0u8
    }
}

/// The 72 bytes of a position: placement, side to move, castling
/// rights, en-passant record, half-move clock.
pub open spec fn ser_state(v: PositionView) -> Seq<u8> {
    board_bytes(v.board) + seq![
        v.turn.spec_ordinal(),
        flag_code(v.castling.white_king_side),
        flag_code(v.castling.white_queen_side),
        flag_code(v.castling.black_king_side),
        flag_code(v.castling.black_queen_side),
        ep_code(v.en_passant),
    ] + u16_le(v.halfmove_clock)
}

/// What a position must satisfy for its encoding to be readable back
/// verbatim; every well-formed position satisfies it.
pub open spec fn state_encodable(v: PositionView) -> bool {
    &&& v.board.len() == 64
    &&& 0 <= v.halfmove_clock < 65536
    &&& match v.en_passant {
        None => true,
        Some(e) => 0 <= e < 64,
    }
}

/// The three bytes of a move: origin, destination, and 0 for no
/// promotion or 1 + the piece.
pub open spec fn ser_move(m: MoveView) -> Seq<u8> {
    seq![
        m.from as u8,
        m.to as u8,
        match m.promotion {
            None => 0u8,
            Some(p) => (1 + p.spec_ordinal()) as u8,
        },
    ]
}

/// What a move must satisfy for its encoding to be readable back
/// verbatim: both squares on the board.
pub open spec fn move_encodable(m: MoveView) -> bool {
    0 <= m.from < 64 && 0 <= m.to < 64
}

fn content_to_code(c: SquareContent) -> (r: u8)
    ensures
        r == content_code(c),
{
    match c {
        None => 0,
        Some((p, col)) => 1 + p.ordinal() + 6 * col.ordinal(),
    }
}

fn code_to_content(code: u8) -> (r: SquareContent)
    ensures
        forall|c: SquareContent| code == content_code(c) ==> r == c,
{
    let r: SquareContent = match code {
        1 => Some((Piece::Pawn, Color::White)),
        2 => Some((Piece::Knight, Color::White)),
        3 => Some((Piece::Bishop, Color::White)),
        4 => Some((Piece::Rook, Color::White)),
        5 => Some((Piece::Queen, Color::White)),
        6 => Some((Piece::King, Color::White)),
        7 => Some((Piece::Pawn, Color::Black)),
        8 => Some((Piece::Knight, Color::Black)),
        9 => Some((Piece::Bishop, Color::Black)),
        10 => Some((Piece::Rook, Color::Black)),
        11 => Some((Piece::Queen, Color::Black)),
        12 => Some((Piece::King, Color::Black)),
        _ => None,
    };
    r
}

/// Appends the 72 bytes of a position.
pub(crate) fn push_state(out: &mut Vec<u8>, st: &GameState)
    requires
        st@.board.len() == 64,
    ensures
        final(out)@ == old(out)@ + ser_state(st@),
{
    let mut i: u8 = 0;
    while i < 64
        invariant
            i <= 64,
            st@.board.len() == 64,
            out@ == old(out)@ + Seq::new(i as nat, |j: int| content_code(st@.board[j])),
        decreases 64 - i,
    {
        out.push(content_to_code(st.board.get_piece_at(i)));
        proof {
            assert(out@ =~= old(out)@ + Seq::new(
                i as nat + 1,
                |j: int| content_code(st@.board[j]),
            ));
        }
        i = i + 1;
    }
    out.push(st.turn.ordinal());
    out.push(if st.castling.white_king_side {
        1
    } else {
        0
    });
    out.push(if st.castling.white_queen_side {
        1
    } else {
        0
    });
    out.push(if st.castling.black_king_side {
        1
    } else {
        0
    });
    out.push(if st.castling.black_queen_side {
        1
    } else {
        0
    });
    out.push(match st.en_passant {
        None => 64,
        Some(e) => e.get_value(),
    });
    push_u16(out, st.halfmove_clock);
    proof {
        assert(Seq::new(64, |j: int| content_code(st@.board[j])) =~= board_bytes(st@.board));
        assert(final(out)@ =~= old(out)@ + ser_state(st@));
    }
}

/// Reads the 72 bytes of a position at `pos`.  Recovers exactly the
/// position `ser_state` wrote there; the cached king squares are left
/// for the caller to fill in.
pub(crate) fn read_state(bytes: &Vec<u8>, pos: usize) -> (r: Option<(GameState, usize)>)
    ensures
        r matches Some(sp) ==> sp.1 == pos + 72 && pos + 72 <= bytes@.len()
            && sp.0@.board.len() == 64,
        forall|v: PositionView|
            (state_encodable(v) && pos + 72 <= bytes@.len() && bytes@.subrange(
                pos as int,
                pos as int + 72,
            ) == ser_state(v)) ==> (r matches Some(sp) && sp.0@ == v),
{
    let ghost gb = bytes@;
    if pos >= bytes.len() || bytes.len() - pos < 72 {
        return None;
    }
    let total = bytes.len();
    let mut board = ChessBoard::empty();
    let mut i: u8 = 0;
    while i < 64
        invariant
            i <= 64,
            pos + 72 <= total,
            total == bytes@.len(),
            gb == bytes@,
            board@.len() == 64,
            forall|v: PositionView|
                (state_encodable(v) && gb.subrange(pos as int, pos as int + 72) == ser_state(
                    v,
                )) ==> forall|j: int| 0 <= j < i ==> board@[j] == v.board[j],
        decreases 64 - i,
    {
        let code = bytes[pos + i as usize];
        let content = code_to_content(code);
        let ghost prev = board@;
        board.set_piece_at(i, content);
        proof {
            assert forall|v: PositionView|
                (state_encodable(v) && gb.subrange(pos as int, pos as int + 72) == ser_state(
                    v,
                )) implies (forall|j: int| 0 <= j < i + 1 ==> board@[j] == v.board[j]) by {
                let sub = gb.subrange(pos as int, pos as int + 72);
                assert(sub[i as int] == gb[pos + i]);
                assert(ser_state(v)[i as int] == board_bytes(v.board)[i as int]);
                assert(code == content_code(v.board[i as int]));
                assert(board@[i as int] == v.board[i as int]);
                assert(forall|j: int| 0 <= j < i ==> board@[j] == prev[j]);
            }
        }
        i = i + 1;
    }
    let turn_b = bytes[pos + 64];
    let turn = if turn_b == 0 {
        Color::White
    } else {
        Color::Black
    };
    let castling = CastlingRights {
        white_king_side: bytes[pos + 65] != 0,
        white_queen_side: bytes[pos + 66] != 0,
        black_king_side: bytes[pos + 67] != 0,
        black_queen_side: bytes[pos + 68] != 0,
    };
    let ep_b = bytes[pos + 69];
    let en_passant: Option<Square> = if ep_b < 64 {
        Some(Square::new(ep_b))
    } else {
        None
    };
    let halfmove = match read_u16(bytes, pos + 70) {
        Some(hp) => hp.0,
        None => {
            return None;
        },
    };
    let st = GameState {
        board,
        turn,
        castling,
        en_passant,
        halfmove_clock: halfmove,
        white_king: 0,
        black_king: 0,
    };
    proof {
        assert forall|v: PositionView|
            (state_encodable(v) && gb.subrange(pos as int, pos as int + 72) == ser_state(
                v,
            )) implies st@ == v by {
            let sub = gb.subrange(pos as int, pos as int + 72);
            let tail = seq![
                v.turn.spec_ordinal(),
                flag_code(v.castling.white_king_side),
                flag_code(v.castling.white_queen_side),
                flag_code(v.castling.black_king_side),
                flag_code(v.castling.black_queen_side),
                ep_code(v.en_passant),
            ];
            assert(ser_state(v) == board_bytes(v.board) + tail + u16_le(v.halfmove_clock));
            assert(sub[64] == gb[pos + 64]);
            assert(ser_state(v)[64] == v.turn.spec_ordinal());
            assert(sub[65] == gb[pos + 65]);
            assert(ser_state(v)[65] == flag_code(v.castling.white_king_side));
            assert(sub[66] == gb[pos + 66]);
            assert(ser_state(v)[66] == flag_code(v.castling.white_queen_side));
            assert(sub[67] == gb[pos + 67]);
            assert(ser_state(v)[67] == flag_code(v.castling.black_king_side));
            assert(sub[68] == gb[pos + 68]);
            assert(ser_state(v)[68] == flag_code(v.castling.black_queen_side));
            assert(sub[69] == gb[pos + 69]);
            assert(ser_state(v)[69] == ep_code(v.en_passant));
            assert(sub[70] == gb[pos + 70]);
            assert(sub[71] == gb[pos + 71]);
            assert(ser_state(v)[70] == u16_le(v.halfmove_clock)[0]);
            assert(ser_state(v)[71] == u16_le(v.halfmove_clock)[1]);
            assert(gb.subrange(pos as int + 70, pos as int + 72) =~= u16_le(v.halfmove_clock));
            assert(st@.board =~= v.board);
            match v.en_passant {
                None => {
                    assert(ep_code(v.en_passant) == 64);
                },
                Some(e) => {
                    assert(ep_code(v.en_passant) == e as u8);
                    assert(ep_b as int == e);
                },
            }
            assert(st@ == v);
        }
    }
    Some((st, pos + 72))
}

/// Appends the three bytes of a move.
pub(crate) fn push_move(out: &mut Vec<u8>, m: &crate::moves::Move)
    ensures
        final(out)@ == old(out)@ + ser_move(m@),
{
    out.push(m.get_from());
    out.push(m.get_to());
    out.push(match m.get_promotion() {
        None => 0,
        Some(p) => 1 + p.ordinal(),
    });
    proof {
        assert(final(out)@ =~= old(out)@ + ser_move(m@));
    }
}

/// Reads the three bytes of a move at `pos`.  Recovers exactly the
/// move `ser_move` wrote there.
pub(crate) fn read_move(bytes: &Vec<u8>, pos: usize) -> (r: Option<(crate::moves::Move, usize)>)
    ensures
        r matches Some(mp) ==> mp.1 == pos + 3 && pos + 3 <= bytes@.len() && move_encodable(
            mp.0@,
        ),
        forall|m: MoveView|
            (move_encodable(m) && pos + 3 <= bytes@.len() && bytes@.subrange(
                pos as int,
                pos as int + 3,
            ) == ser_move(m)) ==> (r matches Some(mp) && mp.0@ == m),
{
    let ghost gb = bytes@;
    if pos >= bytes.len() || bytes.len() - pos < 3 {
        return None;
    }
    let from_b = bytes[pos];
    let to_b = bytes[pos + 1];
    let promo_b = bytes[pos + 2];
    let from = match Square::try_new(from_b) {
        Some(s) => s,
        None => {
            proof {
                assert forall|m: MoveView|
                    !(move_encodable(m) && gb.subrange(pos as int, pos as int + 3) == ser_move(
                        m,
                    )) by {
                    if move_encodable(m) && gb.subrange(pos as int, pos as int + 3) == ser_move(
                        m,
                    ) {
                        assert(gb.subrange(pos as int, pos as int + 3)[0] == gb[pos as int]);
                        assert(ser_move(m)[0] == m.from as u8);
                    }
                }
            }
            return None;
        },
    };
    let to = match Square::try_new(to_b) {
        Some(s) => s,
        None => {
            proof {
                assert forall|m: MoveView|
                    !(move_encodable(m) && gb.subrange(pos as int, pos as int + 3) == ser_move(
                        m,
                    )) by {
                    if move_encodable(m) && gb.subrange(pos as int, pos as int + 3) == ser_move(
                        m,
                    ) {
                        assert(gb.subrange(pos as int, pos as int + 3)[1] == gb[pos as int + 1]);
                        assert(ser_move(m)[1] == m.to as u8);
                    }
                }
            }
            return None;
        },
    };
    let promotion: Option<Piece> = match promo_b {
        0 => None,
        1 => Some(Piece::Pawn),
        2 => Some(Piece::Knight),
        3 => Some(Piece::Bishop),
        4 => Some(Piece::Rook),
        5 => Some(Piece::Queen),
        6 => Some(Piece::King),
        _ => {
            proof {
                assert forall|m: MoveView|
                    !(move_encodable(m) && gb.subrange(pos as int, pos as int + 3) == ser_move(
                        m,
                    )) by {
                    if move_encodable(m) && gb.subrange(pos as int, pos as int + 3) == ser_move(
                        m,
                    ) {
                        assert(gb.subrange(pos as int, pos as int + 3)[2] == gb[pos as int + 2]);
                    }
                }
            }
            return None;
        },
    };
    let mv = crate::moves::Move::new(from, to, promotion);
    proof {
        assert forall|m: MoveView|
            (move_encodable(m) && gb.subrange(pos as int, pos as int + 3) == ser_move(
                m,
            )) implies mv@ == m by {
            let sub = gb.subrange(pos as int, pos as int + 3);
            assert(sub[0] == gb[pos as int]);
            assert(sub[1] == gb[pos as int + 1]);
            assert(sub[2] == gb[pos as int + 2]);
            assert(ser_move(m)[0] == m.from as u8);
            assert(ser_move(m)[1] == m.to as u8);
            assert(from_b as int == m.from);
            assert(to_b as int == m.to);
        }
    }
    Some((mv, pos + 3))
}

/// Whether two byte strings are equal.
pub(crate) fn bytes_equal(a: &Vec<u8>, b: &Vec<u8>) -> (r: bool)
    ensures
        r == (a@ == b@),
{
    if a.len() != b.len() {
        return false;
    }
    let mut i: usize = 0;
    while i < a.len()
        invariant
            i <= a@.len(),
            a@.len() == b@.len(),
            forall|j: int| 0 <= j < i ==> a@[j] == b@[j],
        decreases a@.len() - i,
    {
        if a[i] != b[i] {
            return false;
        }
        i = i + 1;
    }
    proof {
        assert(a@ =~= b@);
    }
    true
}

/// The bytes of a game's PGN metadata: the four text fields, each
/// length-prefixed, then the creation time.
pub open spec fn ser_pgn(p: PgnView) -> Seq<u8> {
    blob(p.event) + blob(p.site) + blob(p.white) + blob(p.black) + u64_le(p.timestamp)
}

/// How many bytes `ser_pgn` takes.
pub open spec fn pgn_ser_len(p: PgnView) -> int {
    40 + p.event.len() + p.site.len() + p.white.len() + p.black.len() as int
}

/// What metadata must satisfy for its encoding to be readable back
/// verbatim; the metadata of every game satisfies it.
pub open spec fn pgn_encodable(p: PgnView) -> bool {
    0 <= p.timestamp < 0x1_0000_0000_0000_0000
}

/// Splitting a concatenation at the seam gives back its two parts.
pub(crate) proof fn lemma_cat_sub(x: Seq<u8>, y: Seq<u8>)
    ensures
        (x + y).len() == x.len() + y.len(),
        (x + y).subrange(0, x.len() as int) == x,
        (x + y).subrange(x.len() as int, x.len() + y.len() as int) == y,
{
    assert((x + y).subrange(0, x.len() as int) =~= x);
    assert((x + y).subrange(x.len() as int, x.len() + y.len() as int) =~= y);
}

/// A range of a range of a sequence is a range of the sequence.
pub(crate) proof fn lemma_sub_sub(s: Seq<u8>, a: int, b: int, c: int, d: int)
    requires
        0 <= a <= b <= s.len(),
        0 <= c <= d <= b - a,
    ensures
        s.subrange(a, b).subrange(c, d) == s.subrange(a + c, a + d),
{
    assert(s.subrange(a, b).subrange(c, d) =~= s.subrange(a + c, a + d));
}

/// Where each part of serialized metadata lies.
#[verifier::rlimit(60)]
proof fn lemma_pgn_layout(p: PgnView)
    ensures
        ser_pgn(p).len() == pgn_ser_len(p),
        ser_pgn(p).subrange(0, 8 + p.event.len() as int) == blob(p.event),
        ser_pgn(p).subrange(
            8 + p.event.len() as int,
            16 + p.event.len() + p.site.len() as int,
        ) == blob(p.site),
        ser_pgn(p).subrange(
            16 + p.event.len() + p.site.len() as int,
            24 + p.event.len() + p.site.len() + p.white.len() as int,
        ) == blob(p.white),
        ser_pgn(p).subrange(
            24 + p.event.len() + p.site.len() + p.white.len() as int,
            32 + p.event.len() + p.site.len() + p.white.len() + p.black.len() as int,
        ) == blob(p.black),
        ser_pgn(p).subrange(pgn_ser_len(p) - 8, pgn_ser_len(p)) == u64_le(p.timestamp),
{
    let e = blob(p.event);
    let si = blob(p.site);
    let w = blob(p.white);
    let b = blob(p.black);
    let t = u64_le(p.timestamp);
    let p2 = e + si;
    let p3 = p2 + w;
    let p4 = p3 + b;
    let p5 = p4 + t;
    assert(ser_pgn(p) == p5);
    lemma_cat_sub(e, si);
    lemma_cat_sub(p2, w);
    lemma_cat_sub(p3, b);
    lemma_cat_sub(p4, t);
    lemma_sub_sub(p5, 0, p4.len() as int, 0, p3.len() as int);
    lemma_sub_sub(p5, 0, p4.len() as int, p3.len() as int, p4.len() as int);
    lemma_sub_sub(p5, 0, p3.len() as int, 0, p2.len() as int);
    lemma_sub_sub(p5, 0, p3.len() as int, p2.len() as int, p3.len() as int);
    lemma_sub_sub(p5, 0, p2.len() as int, 0, e.len() as int);
    lemma_sub_sub(p5, 0, p2.len() as int, e.len() as int, p2.len() as int);
    assert(p5.subrange(0, p4.len() as int) == p4);
    assert(p5.subrange(0, p3.len() as int) == p3);
    assert(p5.subrange(0, p2.len() as int) == p2);
}

/// If serialized metadata lies at `pos` in `gb`, where each of its
/// parts lies.
proof fn lemma_pgn_at(gb: Seq<u8>, pos: int, p: PgnView)
    requires
        pos >= 0,
        pos + pgn_ser_len(p) <= gb.len(),
        gb.subrange(pos, pos + pgn_ser_len(p)) == ser_pgn(p),
    ensures
        gb.subrange(pos, pos + 8 + p.event.len() as int) == blob(p.event),
        gb.subrange(
            pos + 8 + p.event.len() as int,
            pos + 16 + p.event.len() + p.site.len() as int,
        ) == blob(p.site),
        gb.subrange(
            pos + 16 + p.event.len() + p.site.len() as int,
            pos + 24 + p.event.len() + p.site.len() + p.white.len() as int,
        ) == blob(p.white),
        gb.subrange(
            pos + 24 + p.event.len() + p.site.len() + p.white.len() as int,
            pos + 32 + p.event.len() + p.site.len() + p.white.len() + p.black.len() as int,
        ) == blob(p.black),
        gb.subrange(pos + pgn_ser_len(p) - 8, pos + pgn_ser_len(p)) == u64_le(p.timestamp),
{
    lemma_pgn_layout(p);
    lemma_sub_sub(gb, pos, pos + pgn_ser_len(p), 0, 8 + p.event.len() as int);
    lemma_sub_sub(
        gb,
        pos,
        pos + pgn_ser_len(p),
        8 + p.event.len() as int,
        16 + p.event.len() + p.site.len() as int,
    );
    lemma_sub_sub(
        gb,
        pos,
        pos + pgn_ser_len(p),
        16 + p.event.len() + p.site.len() as int,
        24 + p.event.len() + p.site.len() + p.white.len() as int,
    );
    lemma_sub_sub(
        gb,
        pos,
        pos + pgn_ser_len(p),
        24 + p.event.len() + p.site.len() + p.white.len() as int,
        32 + p.event.len() + p.site.len() + p.white.len() + p.black.len() as int,
    );
    lemma_sub_sub(
        gb,
        pos,
        pos + pgn_ser_len(p),
        pgn_ser_len(p) - 8,
        pgn_ser_len(p),
    );
}

/// Reads two length-prefixed byte strings in a row at `pos`.
/// Recovers exactly what two `blob`s wrote there.
fn read_two_blobs(bytes: &Vec<u8>, pos: usize) -> (r: Option<(Vec<u8>, Vec<u8>, usize)>)
    ensures
        r matches Some(x) ==> pos <= x.2 <= bytes@.len(),
        forall|a: Seq<u8>, b: Seq<u8>|
            (pos + 16 + a.len() + b.len() <= bytes@.len() && bytes@.subrange(
                pos as int,
                pos as int + 8 + a.len(),
            ) == blob(a) && bytes@.subrange(
                pos as int + 8 + a.len(),
                pos as int + 16 + a.len() + b.len(),
            ) == blob(b)) ==> (r matches Some(x) && x.0@ == a && x.1@ == b && x.2 == pos + 16
                + a.len() + b.len()),
{
    let ghost gb = bytes@;
    let ap = match read_blob(bytes, pos) {
        Some(x) => x,
        None => {
            return None;
        },
    };
    let bp = match read_blob(bytes, ap.1) {
        Some(x) => x,
        None => {
            proof {
                assert forall|a: Seq<u8>, b: Seq<u8>|
                    !(pos + 16 + a.len() + b.len() <= gb.len() && gb.subrange(
                        pos as int,
                        pos as int + 8 + a.len(),
                    ) == blob(a) && gb.subrange(
                        pos as int + 8 + a.len(),
                        pos as int + 16 + a.len() + b.len(),
                    ) == blob(b)) by {
                    if pos + 16 + a.len() + b.len() <= gb.len() && gb.subrange(
                        pos as int,
                        pos as int + 8 + a.len(),
                    ) == blob(a) && gb.subrange(
                        pos as int + 8 + a.len(),
                        pos as int + 16 + a.len() + b.len(),
                    ) == blob(b) {
                        assert(ap.1 == pos + 8 + a.len());
                    }
                }
            }
            return None;
        },
    };
    proof {
        assert forall|a: Seq<u8>, b: Seq<u8>|
            (pos + 16 + a.len() + b.len() <= gb.len() && gb.subrange(
                pos as int,
                pos as int + 8 + a.len(),
            ) == blob(a) && gb.subrange(
                pos as int + 8 + a.len(),
                pos as int + 16 + a.len() + b.len(),
            ) == blob(b)) implies (ap.0@ == a && bp.0@ == b && bp.1 == pos + 16 + a.len()
            + b.len()) by {
            assert(ap.1 == pos + 8 + a.len());
        }
    }
    Some((ap.0, bp.0, bp.1))
}

/// Reads a game's PGN metadata at `pos`.  Recovers exactly the
/// metadata `ser_pgn` wrote there.
#[verifier::rlimit(100)]
pub(crate) fn read_pgn(bytes: &Vec<u8>, pos: usize) -> (r: Option<(crate::pgn::PGNMetadata, usize)>)
    ensures
        r matches Some(x) ==> pos <= x.1 <= bytes@.len(),
        forall|p: PgnView|
            (pgn_encodable(p) && pos + pgn_ser_len(p) <= bytes@.len() && bytes@.subrange(
                pos as int,
                pos as int + pgn_ser_len(p),
            ) == ser_pgn(p)) ==> (r matches Some(x) && x.0@ == p && x.1 == pos + pgn_ser_len(p)),
{
    let ghost gb = bytes@;
    let t1 = match read_two_blobs(bytes, pos) {
        Some(x) => x,
        None => {
            proof {
                assert forall|p: PgnView|
                    !(pgn_encodable(p) && pos + pgn_ser_len(p) <= gb.len() && gb.subrange(
                        pos as int,
                        pos as int + pgn_ser_len(p),
                    ) == ser_pgn(p)) by {
                    if pgn_encodable(p) && pos + pgn_ser_len(p) <= gb.len() && gb.subrange(
                        pos as int,
                        pos as int + pgn_ser_len(p),
                    ) == ser_pgn(p) {
                        lemma_pgn_at(gb, pos as int, p);
                    }
                }
            }
            return None;
        },
    };
    let event = t1.0;
    let site = t1.1;
    let pos2 = t1.2;
    let t2 = match read_two_blobs(bytes, pos2) {
        Some(x) => x,
        None => {
            proof {
                assert forall|p: PgnView|
                    !(pgn_encodable(p) && pos + pgn_ser_len(p) <= gb.len() && gb.subrange(
                        pos as int,
                        pos as int + pgn_ser_len(p),
                    ) == ser_pgn(p)) by {
                    if pgn_encodable(p) && pos + pgn_ser_len(p) <= gb.len() && gb.subrange(
                        pos as int,
                        pos as int + pgn_ser_len(p),
                    ) == ser_pgn(p) {
                        lemma_pgn_at(gb, pos as int, p);
                        assert(pos2 == pos + 16 + p.event.len() + p.site.len());
                    }
                }
            }
            return None;
        },
    };
    let white = t2.0;
    let black = t2.1;
    let pos4 = t2.2;
    let tp = match read_u64(bytes, pos4) {
        Some(x) => x,
        None => {
            proof {
                assert forall|p: PgnView|
                    !(pgn_encodable(p) && pos + pgn_ser_len(p) <= gb.len() && gb.subrange(
                        pos as int,
                        pos as int + pgn_ser_len(p),
                    ) == ser_pgn(p)) by {
                    if pgn_encodable(p) && pos + pgn_ser_len(p) <= gb.len() && gb.subrange(
                        pos as int,
                        pos as int + pgn_ser_len(p),
                    ) == ser_pgn(p) {
                        lemma_pgn_at(gb, pos as int, p);
                        assert(pos2 == pos + 16 + p.event.len() + p.site.len());
                        assert(pos4 == pos2 + 16 + p.white.len() + p.black.len());
                        assert(pos4 + 8 <= gb.len());
                    }
                }
            }
            return None;
        },
    };
    let timestamp = tp.0;
    let pos5 = tp.1;
    let meta = crate::pgn::PGNMetadata::new(timestamp, event, site, white, black);
    proof {
        assert forall|p: PgnView|
            (pgn_encodable(p) && pos + pgn_ser_len(p) <= gb.len() && gb.subrange(
                pos as int,
                pos as int + pgn_ser_len(p),
            ) == ser_pgn(p)) implies (meta@ == p && pos5 == pos + pgn_ser_len(p)) by {
            lemma_pgn_at(gb, pos as int, p);
            assert(pos2 == pos + 16 + p.event.len() + p.site.len());
            assert(pos4 == pos2 + 16 + p.white.len() + p.black.len());
            assert(event@ == p.event && site@ == p.site && white@ == p.white && black@ == p.black);
            assert(timestamp as int == p.timestamp);
        }
    }
    Some((meta, pos5))
}

} // verus!
