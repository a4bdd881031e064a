use giga_chess_core::color::Color;
use giga_chess_core::engine::Engine;
use giga_chess_core::game::{DeserializeError, Game, GameStatus};
use giga_chess_core::pgn::PGNMetadata;
use giga_chess_core::piece::Piece;
use giga_chess_core::square::Square;

fn sq(file: u8, rank: u8) -> Square {
    Square::from_file_rank(file, rank).unwrap()
}

fn sample_pgn() -> PGNMetadata {
    PGNMetadata::new(
        1700000000,
        b"Club evening".to_vec(),
        b"At home".to_vec(),
        b"Alice".to_vec(),
        b"Bob".to_vec(),
    )
}

fn boards_equal(a: &Game, b: &Game) {
    for i in 0..64u8 {
        assert_eq!(a.board().get_piece_at(i), b.board().get_piece_at(i));
    }
}

#[test]
fn round_trip_of_a_fresh_game() {
    let engine = Engine::new();
    let game = Game::new(&engine, sample_pgn());
    let bytes = game.serialize();
    let restored = Game::deserialize(&engine, &bytes).unwrap();
    assert_eq!(restored.status(), game.status());
    assert_eq!(restored.side_to_move(), game.side_to_move());
    assert_eq!(restored.history_len(), 0);
    assert_eq!(restored.pgn().get_timestamp(), 1700000000);
    assert_eq!(restored.pgn().white, b"Alice".to_vec());
    assert_eq!(restored.pgn().black, b"Bob".to_vec());
    boards_equal(&game, &restored);
}

#[test]
fn round_trip_of_a_played_game() {
    let engine = Engine::new();
    let mut game = Game::new(&engine, sample_pgn());
    assert!(game.play_move_from_to(&engine, sq(5, 2), sq(5, 4), None));
    assert!(game.play_move_from_to(&engine, sq(3, 7), sq(3, 5), None));
    assert!(game.play_move_from_to(&engine, sq(7, 1), sq(6, 3), None));
    let bytes = game.serialize();
    let restored = Game::deserialize(&engine, &bytes).unwrap();
    assert_eq!(restored.status(), GameStatus::Running);
    assert_eq!(restored.side_to_move(), Color::Black);
    assert_eq!(restored.history_len(), 3);
    assert_eq!(restored.move_at(2), game.move_at(2));
    boards_equal(&game, &restored);
    // the restored game plays on exactly like the original
    let mut a = game;
    let mut b = restored;
    assert!(a.play_move_from_to(&engine, sq(4, 7), sq(4, 5), None));
    assert!(b.play_move_from_to(&engine, sq(4, 7), sq(4, 5), None));
    boards_equal(&a, &b);
}

#[test]
fn round_trip_of_a_finished_game() {
    let engine = Engine::new();
    let mut game = Game::new(&engine, sample_pgn());
    assert!(game.play_move_from_to(&engine, sq(6, 2), sq(6, 3), None));
    assert!(game.play_move_from_to(&engine, sq(5, 7), sq(5, 5), None));
    assert!(game.play_move_from_to(&engine, sq(7, 2), sq(7, 4), None));
    assert!(game.play_move_from_to(&engine, sq(4, 8), sq(8, 4), None));
    let bytes = game.serialize();
    let restored = Game::deserialize(&engine, &bytes).unwrap();
    assert_eq!(restored.status(), GameStatus::Checkmate);
    assert_eq!(restored.winner(), Some(Color::Black));
    assert_eq!(restored.history_len(), 4);
}

#[test]
fn empty_input_is_truncated() {
    let engine = Engine::new();
    let bytes: Vec<u8> = Vec::new();
    assert_eq!(Game::deserialize(&engine, &bytes).unwrap_err(), DeserializeError::Truncated);
}

#[test]
fn unknown_format_tag_is_rejected() {
    let engine = Engine::new();
    let bytes: Vec<u8> = vec![2, 0, 0, 0];
    assert_eq!(Game::deserialize(&engine, &bytes).unwrap_err(), DeserializeError::UnsupportedFormat);
}

#[test]
fn cut_off_input_is_truncated() {
    let engine = Engine::new();
    let game = Game::new(&engine, sample_pgn());
    let mut bytes = game.serialize();
    bytes.truncate(bytes.len() / 2);
    assert_eq!(Game::deserialize(&engine, &bytes).unwrap_err(), DeserializeError::Truncated);
}

#[test]
fn trailing_bytes_are_rejected() {
    let engine = Engine::new();
    let game = Game::new(&engine, sample_pgn());
    let mut bytes = game.serialize();
    bytes.push(0);
    assert_eq!(Game::deserialize(&engine, &bytes).unwrap_err(), DeserializeError::TrailingBytes);
}

#[test]
fn a_second_king_is_an_invalid_position() {
    let engine = Engine::new();
    let game = Game::new(&engine, PGNMetadata::from_timestamp(7));
    let mut bytes = game.serialize();
    // the position's 64 board bytes start right after the tag and the
    // PGN metadata, which has empty text fields here: at offset 41.
    // Put a second White king on the empty e3 square.
    let e3 = sq(5, 3).get_value() as usize;
    assert_eq!(bytes[41 + e3], 0);
    bytes[41 + e3] = 6;
    assert_eq!(Game::deserialize(&engine, &bytes).unwrap_err(), DeserializeError::InvalidPosition);
}

#[test]
fn a_corrupt_history_move_is_invalid() {
    let engine = Engine::new();
    let mut game = Game::new(&engine, PGNMetadata::from_timestamp(7));
    assert!(game.play_move_from_to(&engine, sq(5, 2), sq(5, 4), None));
    let mut bytes = game.serialize();
    // the first history entry starts after the tag (1), the metadata
    // (40), the current position (72) and the entry count (8): its
    // first byte is the move's origin square, which no square index
    // can be 200 of.
    bytes[121] = 200;
    assert_eq!(Game::deserialize(&engine, &bytes).unwrap_err(), DeserializeError::InvalidHistory);
}

#[test]
fn a_decodable_but_rewritten_save_is_not_canonical() {
    let engine = Engine::new();
    let game = Game::new(&engine, PGNMetadata::from_timestamp(7));
    let mut bytes = game.serialize();
    // byte 106 holds the first castling right; any non-zero value
    // decodes as "available", but only 1 is ever written
    assert_eq!(bytes[106], 1);
    bytes[106] = 2;
    assert_eq!(Game::deserialize(&engine, &bytes).unwrap_err(), DeserializeError::NonCanonical);
}

#[test]
fn promotion_survives_the_round_trip() {
    let engine = Engine::new();
    let mut game = Game::new(&engine, sample_pgn());
    for (from, to) in [
        ((1, 2), (1, 4)),
        ((2, 7), (2, 5)),
        ((1, 4), (2, 5)),
        ((1, 7), (1, 6)),
        ((2, 5), (1, 6)),
        ((8, 7), (8, 6)),
        ((1, 6), (1, 7)),
        ((8, 6), (8, 5)),
    ] {
        assert!(game.play_move_from_to(&engine, sq(from.0, from.1), sq(to.0, to.1), None));
    }
    assert!(game.play_move_from_to(&engine, sq(1, 7), sq(2, 8), Some(Piece::Rook)));
    let bytes = game.serialize();
    let restored = Game::deserialize(&engine, &bytes).unwrap();
    assert_eq!(
        restored.board().get_piece_at(sq(2, 8).get_value()),
        Some((Piece::Rook, Color::White))
    );
    assert_eq!(restored.move_at(8).get_promotion(), Some(Piece::Rook));
    boards_equal(&game, &restored);
}
