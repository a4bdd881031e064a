use giga_chess_core::color::Color;
use giga_chess_core::engine::Engine;
use giga_chess_core::game::{DrawReason, Game, GameStatus};
use giga_chess_core::pgn::PGNMetadata;
use giga_chess_core::piece::Piece;
use giga_chess_core::square::Square;

fn sq(file: u8, rank: u8) -> Square {
    Square::from_file_rank(file, rank).unwrap()
}

fn play(game: &mut Game, engine: &Engine, from: (u8, u8), to: (u8, u8)) -> bool {
    game.play_move_from_to(engine, sq(from.0, from.1), sq(to.0, to.1), None)
}

fn must_play(game: &mut Game, engine: &Engine, from: (u8, u8), to: (u8, u8)) {
    assert!(play(game, engine, from, to), "move {:?}-{:?} was refused", from, to);
}

#[test]
fn starting_position_layout() {
    let engine = Engine::new();
    let game = Game::new(&engine, PGNMetadata::from_timestamp(0));
    assert_eq!(game.status(), GameStatus::Running);
    assert_eq!(game.side_to_move(), Color::White);
    assert_eq!(game.winner(), None);
    assert_eq!(game.latest_move(), None);
    let board = game.board();
    assert_eq!(board.get_piece_at(sq(5, 1).get_value()), Some((Piece::King, Color::White)));
    assert_eq!(board.get_piece_at(sq(5, 8).get_value()), Some((Piece::King, Color::Black)));
    assert_eq!(board.get_piece_at(sq(1, 1).get_value()), Some((Piece::Rook, Color::White)));
    assert_eq!(board.get_piece_at(sq(4, 8).get_value()), Some((Piece::Queen, Color::Black)));
    for file in 1..=8 {
        assert_eq!(board.get_piece_at(sq(file, 2).get_value()), Some((Piece::Pawn, Color::White)));
        assert_eq!(board.get_piece_at(sq(file, 7).get_value()), Some((Piece::Pawn, Color::Black)));
        assert_eq!(board.get_piece_at(sq(file, 4).get_value()), None);
    }
}

#[test]
fn twenty_legal_moves_at_the_start() {
    let engine = Engine::new();
    let game = Game::new(&engine, PGNMetadata::from_timestamp(0));
    let map = game.legal_move_squares();
    let total: usize = map.iter().map(|dests| dests.len()).sum();
    assert_eq!(total, 20);
    // a knight's opening jumps
    let g1 = sq(7, 1).get_value() as usize;
    assert_eq!(map[g1].len(), 2);
    // no moves from an empty square or an opponent's piece
    assert!(map[sq(5, 4).get_value() as usize].is_empty());
    assert!(map[sq(5, 7).get_value() as usize].is_empty());
}

#[test]
fn illegal_moves_leave_the_game_unchanged() {
    let engine = Engine::new();
    let mut game = Game::new(&engine, PGNMetadata::from_timestamp(0));
    // moving an opponent's piece, moving into one's own piece,
    // moving from an empty square
    assert!(!play(&mut game, &engine, (5, 7), (5, 5)));
    assert!(!play(&mut game, &engine, (1, 1), (1, 2)));
    assert!(!play(&mut game, &engine, (4, 4), (4, 5)));
    assert_eq!(game.status(), GameStatus::Running);
    assert_eq!(game.side_to_move(), Color::White);
    assert_eq!(game.history_len(), 0);
    assert_eq!(game.latest_move(), None);
    let board = game.board();
    assert_eq!(board.get_piece_at(sq(5, 7).get_value()), Some((Piece::Pawn, Color::Black)));
}

#[test]
fn scripted_checkmate() {
    let engine = Engine::new();
    let mut game = Game::new(&engine, PGNMetadata::from_timestamp(0));
    must_play(&mut game, &engine, (6, 2), (6, 3));
    must_play(&mut game, &engine, (5, 7), (5, 5));
    must_play(&mut game, &engine, (7, 2), (7, 4));
    must_play(&mut game, &engine, (4, 8), (8, 4));
    assert_eq!(game.status(), GameStatus::Checkmate);
    assert_eq!(game.winner(), Some(Color::Black));
    // terminal status is sticky: nothing can be played any more
    assert!(!play(&mut game, &engine, (5, 2), (5, 3)));
    assert!(!play(&mut game, &engine, (7, 1), (6, 3)));
    assert_eq!(game.status(), GameStatus::Checkmate);
    assert_eq!(game.history_len(), 4);
}

#[test]
fn checkmate_empties_the_move_table_and_threats_name_the_attacker() {
    let engine = Engine::new();
    let mut game = Game::new(&engine, PGNMetadata::from_timestamp(0));
    must_play(&mut game, &engine, (6, 2), (6, 3));
    must_play(&mut game, &engine, (5, 7), (5, 5));
    must_play(&mut game, &engine, (7, 2), (7, 4));
    must_play(&mut game, &engine, (4, 8), (8, 4));
    let map = game.legal_move_squares();
    for dests in map.iter() {
        assert!(dests.is_empty());
    }
    let threats = game.get_check_threats(&engine);
    assert_eq!(threats.len(), 1);
    assert_eq!(threats[0], sq(8, 4));
}

#[test]
fn no_threats_when_not_in_check() {
    let engine = Engine::new();
    let game = Game::new(&engine, PGNMetadata::from_timestamp(0));
    assert!(game.get_check_threats(&engine).is_empty());
}

#[test]
fn en_passant_capture_removes_the_passed_pawn() {
    let engine = Engine::new();
    let mut game = Game::new(&engine, PGNMetadata::from_timestamp(0));
    must_play(&mut game, &engine, (5, 2), (5, 4));
    must_play(&mut game, &engine, (1, 7), (1, 6));
    must_play(&mut game, &engine, (5, 4), (5, 5));
    must_play(&mut game, &engine, (4, 7), (4, 5));
    // the capture in passing must be offered for the pawn on e5
    let map = game.legal_move_squares();
    let from_e5 = &map[sq(5, 5).get_value() as usize];
    assert!(from_e5.contains(&sq(4, 6)));
    // play it: the pawn lands on d6, and the pawn on d5 disappears
    must_play(&mut game, &engine, (5, 5), (4, 6));
    let board = game.board();
    assert_eq!(board.get_piece_at(sq(4, 6).get_value()), Some((Piece::Pawn, Color::White)));
    assert_eq!(board.get_piece_at(sq(4, 5).get_value()), None);
    assert_eq!(board.get_piece_at(sq(5, 5).get_value()), None);
}

#[test]
fn promotion_defaults_to_queen() {
    let engine = Engine::new();
    let mut game = Game::new(&engine, PGNMetadata::from_timestamp(0));
    must_play(&mut game, &engine, (1, 2), (1, 4));
    must_play(&mut game, &engine, (2, 7), (2, 5));
    must_play(&mut game, &engine, (1, 4), (2, 5));
    must_play(&mut game, &engine, (1, 7), (1, 6));
    must_play(&mut game, &engine, (2, 5), (1, 6));
    must_play(&mut game, &engine, (8, 7), (8, 6));
    must_play(&mut game, &engine, (1, 6), (1, 7));
    must_play(&mut game, &engine, (8, 6), (8, 5));
    // the pawn takes the knight on b8 with no promotion piece named
    must_play(&mut game, &engine, (1, 7), (2, 8));
    let board = game.board();
    assert_eq!(board.get_piece_at(sq(2, 8).get_value()), Some((Piece::Queen, Color::White)));
}

#[test]
fn promotion_honours_an_explicit_choice() {
    let engine = Engine::new();
    let mut game = Game::new(&engine, PGNMetadata::from_timestamp(0));
    must_play(&mut game, &engine, (1, 2), (1, 4));
    must_play(&mut game, &engine, (2, 7), (2, 5));
    must_play(&mut game, &engine, (1, 4), (2, 5));
    must_play(&mut game, &engine, (1, 7), (1, 6));
    must_play(&mut game, &engine, (2, 5), (1, 6));
    must_play(&mut game, &engine, (8, 7), (8, 6));
    must_play(&mut game, &engine, (1, 6), (1, 7));
    must_play(&mut game, &engine, (8, 6), (8, 5));
    assert!(game.play_move_from_to(&engine, sq(1, 7), sq(2, 8), Some(Piece::Knight)));
    let board = game.board();
    assert_eq!(board.get_piece_at(sq(2, 8).get_value()), Some((Piece::Knight, Color::White)));
}

#[test]
fn a_pinned_piece_may_not_expose_its_king() {
    let engine = Engine::new();
    let mut game = Game::new(&engine, PGNMetadata::from_timestamp(0));
    must_play(&mut game, &engine, (5, 2), (5, 4));
    must_play(&mut game, &engine, (4, 7), (4, 5));
    // the bishop checks from b5; the knight blocks on c6 and is pinned
    must_play(&mut game, &engine, (6, 1), (2, 5));
    must_play(&mut game, &engine, (2, 8), (3, 6));
    must_play(&mut game, &engine, (7, 1), (6, 3));
    // the pinned knight has no legal move at all, although its jumps
    // would be pseudo-legal
    let map = game.legal_move_squares();
    let from_c6 = &map[sq(3, 6).get_value() as usize];
    assert!(from_c6.is_empty());
    assert!(!play(&mut game, &engine, (3, 6), (4, 4)));
}

#[test]
fn castling_moves_the_rook_too() {
    let engine = Engine::new();
    let mut game = Game::new(&engine, PGNMetadata::from_timestamp(0));
    must_play(&mut game, &engine, (5, 2), (5, 4));
    must_play(&mut game, &engine, (5, 7), (5, 5));
    must_play(&mut game, &engine, (7, 1), (6, 3));
    must_play(&mut game, &engine, (2, 8), (3, 6));
    must_play(&mut game, &engine, (6, 1), (3, 4));
    must_play(&mut game, &engine, (7, 8), (6, 6));
    // short castling: the king steps to g1, the rook crosses to f1
    must_play(&mut game, &engine, (5, 1), (7, 1));
    let board = game.board();
    assert_eq!(board.get_piece_at(sq(7, 1).get_value()), Some((Piece::King, Color::White)));
    assert_eq!(board.get_piece_at(sq(6, 1).get_value()), Some((Piece::Rook, Color::White)));
    assert_eq!(board.get_piece_at(sq(8, 1).get_value()), None);
    assert_eq!(board.get_piece_at(sq(5, 1).get_value()), None);
}

#[test]
fn scripted_stalemate() {
    let engine = Engine::new();
    let mut game = Game::new(&engine, PGNMetadata::from_timestamp(0));
    let moves = [
        ((5, 2), (5, 3)),
        ((1, 7), (1, 5)),
        ((4, 1), (8, 5)),
        ((1, 8), (1, 6)),
        ((8, 5), (1, 5)),
        ((8, 7), (8, 5)),
        ((1, 5), (3, 7)),
        ((1, 6), (8, 6)),
        ((8, 2), (8, 4)),
        ((6, 7), (6, 6)),
        ((3, 7), (4, 7)),
        ((5, 8), (6, 7)),
        ((4, 7), (2, 7)),
        ((4, 8), (4, 3)),
        ((2, 7), (2, 8)),
        ((4, 3), (8, 7)),
        ((2, 8), (3, 8)),
        ((6, 7), (7, 6)),
        ((3, 8), (5, 6)),
    ];
    for (from, to) in moves {
        must_play(&mut game, &engine, from, to);
    }
    assert_eq!(game.status(), GameStatus::Stalemate);
    assert_eq!(game.winner(), None);
    assert!(!play(&mut game, &engine, (5, 6), (5, 5)));
}

#[test]
fn threefold_repetition_draws_the_game() {
    let engine = Engine::new();
    let mut game = Game::new(&engine, PGNMetadata::from_timestamp(0));
    assert_eq!(game.draw_reason(), None);
    // shuffling the knights brings the starting position back twice
    for _ in 0..2 {
        must_play(&mut game, &engine, (7, 1), (6, 3));
        must_play(&mut game, &engine, (7, 8), (6, 6));
        must_play(&mut game, &engine, (6, 3), (7, 1));
        must_play(&mut game, &engine, (6, 6), (7, 8));
    }
    assert_eq!(game.status(), GameStatus::Draw);
    assert_eq!(game.draw_reason(), Some(DrawReason::ThreefoldRepetition));
    assert_eq!(game.winner(), None);
    assert!(!play(&mut game, &engine, (5, 2), (5, 4)));
}

#[test]
fn latest_move_reports_the_last_entry() {
    let engine = Engine::new();
    let mut game = Game::new(&engine, PGNMetadata::from_timestamp(0));
    must_play(&mut game, &engine, (5, 2), (5, 4));
    let last = game.latest_move().unwrap();
    assert_eq!(last.get_from(), sq(5, 2).get_value());
    assert_eq!(last.get_to(), sq(5, 4).get_value());
    assert_eq!(last.get_promotion(), None);
    assert_eq!(game.history_len(), 1);
    assert_eq!(game.move_at(0), last);
    assert_eq!(game.side_to_move(), Color::Black);
}
