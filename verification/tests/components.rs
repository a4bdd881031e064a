use giga_chess_core::app_game::AppGame;
use giga_chess_core::traits::ChessBoardTrait;
use giga_chess_core::color::Color;
use giga_chess_core::engine::Engine;
use giga_chess_core::game::GameStatus;
use giga_chess_core::login::{LoginState, LoginStateStatus};
use giga_chess_core::pgn::PGNMetadata;
use giga_chess_core::persist::Color32Persist;
use giga_chess_core::piece::Piece;
use giga_chess_core::square::Square;
use giga_chess_core::ui::{AssetServer, GameControlWindow, MainMenuView, ModalEvent, ViewID};
use giga_chess_core::validation::{
    validate_invite_code, validate_password, validate_url, validate_username,
};

fn sq(file: u8, rank: u8) -> Square {
    Square::from_file_rank(file, rank).unwrap()
}

#[test]
fn square_coordinates() {
    let a1 = Square::new(0);
    assert_eq!(a1.get_file(), 1);
    assert_eq!(a1.get_rank(), 1);
    assert!(!a1.is_white());
    let h8 = Square::new(63);
    assert_eq!(h8.get_file(), 8);
    assert_eq!(h8.get_rank(), 8);
    assert!(!h8.is_white());
    let e4 = sq(5, 4);
    assert_eq!(e4.get_value(), 28);
    assert!(e4.is_white());
    assert!(Square::try_new(64).is_none());
    assert!(Square::from_file_rank(0, 5).is_none());
    assert!(Square::from_file_rank(9, 5).is_none());
}

#[test]
fn promotion_squares_depend_on_the_side() {
    assert!(sq(3, 8).is_promotion_square(Color::White));
    assert!(!sq(3, 8).is_promotion_square(Color::Black));
    assert!(sq(3, 1).is_promotion_square(Color::Black));
    assert!(!sq(3, 4).is_promotion_square(Color::White));
}

#[test]
fn iter_top_bottom_walks_rank_eight_first() {
    let squares = Square::iter_top_bottom();
    assert_eq!(squares.len(), 64);
    assert_eq!(squares[0], sq(1, 8));
    assert_eq!(squares[7], sq(8, 8));
    assert_eq!(squares[8], sq(1, 7));
    assert_eq!(squares[63], sq(8, 1));
}

#[test]
fn colors_and_pieces() {
    assert_eq!(Color::White.opposite(), Color::Black);
    assert_eq!(Color::Black.opposite(), Color::White);
    assert_eq!(Color::White.get_fen_char(), 'w');
    assert_eq!(Color::Black.get_fen_char(), 'b');
    assert_eq!(Piece::Pawn.ordinal(), 0);
    assert_eq!(Piece::King.ordinal(), 5);
    assert_eq!(Piece::Knight.get_char(), 'n');
    assert!(Piece::Queen.is_promotion_choice());
    assert!(!Piece::King.is_promotion_choice());
    assert!(!Piece::Pawn.is_promotion_choice());
}

#[test]
fn app_game_uses_the_preselected_promotion_piece() {
    let engine = Engine::new();
    let mut app_game = AppGame::new(&engine, PGNMetadata::from_timestamp(0));
    assert_eq!(app_game.promotion_piece, Piece::Queen);
    app_game.promotion_piece = Piece::Knight;
    for (from, to) in [
        ((1, 2), (1, 4)),
        ((2, 7), (2, 5)),
        ((1, 4), (2, 5)),
        ((1, 7), (1, 6)),
        ((2, 5), (1, 6)),
        ((8, 7), (8, 6)),
        ((1, 6), (1, 7)),
        ((8, 6), (8, 5)),
    ] {
        assert!(app_game.try_play_move(&engine, sq(from.0, from.1), sq(to.0, to.1)));
    }
    assert!(app_game.try_play_move(&engine, sq(1, 7), sq(2, 8)));
    assert_eq!(
        app_game.game.board().get_piece_at(sq(2, 8).get_value()),
        Some((Piece::Knight, Color::White))
    );
}

#[test]
fn app_game_perspective_follows_the_turn_when_asked() {
    let engine = Engine::new();
    let mut app_game = AppGame::new(&engine, PGNMetadata::from_timestamp(0));
    assert_eq!(app_game.perspective, Color::White);
    assert!(!app_game.get_auto_adjust_perspective());
    assert!(app_game.try_play_move(&engine, sq(5, 2), sq(5, 4)));
    assert_eq!(app_game.perspective, Color::White);
    app_game.set_auto_adjust_perspective(true);
    assert_eq!(app_game.perspective, Color::Black);
    assert!(app_game.try_play_move(&engine, sq(5, 7), sq(5, 5)));
    assert_eq!(app_game.perspective, Color::White);
    // a refused drag changes nothing
    assert!(!app_game.try_play_move(&engine, sq(4, 4), sq(4, 5)));
    assert_eq!(app_game.perspective, Color::White);
}

#[test]
fn app_game_color_control() {
    let engine = Engine::new();
    let mut app_game = AppGame::new(&engine, PGNMetadata::from_timestamp(0));
    assert!(app_game.can_color_move(Color::White));
    assert!(app_game.can_color_move(Color::Black));
    app_game.played_color = Some(Color::White);
    assert!(app_game.can_color_move(Color::White));
    assert!(!app_game.can_color_move(Color::Black));
}

#[test]
fn login_state_accessors() {
    let idle = LoginState::Idle;
    assert_eq!(idle.get_status(), LoginStateStatus::Idle);
    assert_eq!(idle.get_token(), None);
    assert_eq!(idle.get_error(), None);
    let success = LoginState::Success(String::from("token-1"));
    assert_eq!(success.get_status(), LoginStateStatus::Success);
    assert_eq!(success.get_token(), Some("token-1"));
    let failed = LoginState::error(String::from("nope"));
    assert_eq!(failed.get_status(), LoginStateStatus::Error);
    assert_eq!(failed.get_error(), Some("nope"));
    assert!(LoginStateStatus::Idle.is_not_successful_nor_loading());
    assert!(LoginStateStatus::Error.is_not_successful_nor_loading());
    assert!(!LoginStateStatus::Loading.is_not_successful_nor_loading());
    assert!(!LoginStateStatus::Success.is_not_successful_nor_loading());
}

#[test]
fn validation_rules() {
    assert!(validate_username("alice"));
    assert!(validate_username("abc"));
    assert!(!validate_username("ab"));
    assert!(!validate_username("a name with spaces"));
    assert!(!validate_username("seventeencharacts"));
    assert!(validate_password("longenough"));
    assert!(!validate_password("short"));
    assert!(validate_invite_code("550e8400-e29b-41d4-a716-446655440000"));
    assert!(!validate_invite_code("not-a-uuid"));
    assert!(validate_url("https://chess.example.org:8080/api"));
    assert!(!validate_url("not a url"));
}

#[test]
fn color_packing_round_trip() {
    let packed = Color32Persist::from_rgba(255, 247, 228, 1);
    let (r, g, b, a) = packed.to_rgba();
    assert_eq!((r, g, b, a), (255, 247, 228, 1));
    let zero = Color32Persist::from_rgba(0, 0, 0, 0);
    assert_eq!(zero.0, 0);
}

#[test]
fn main_menu_event_dispatch() {
    let mut menu = MainMenuView::new();
    // nobody configured the server yet: the online button opens the
    // server settings
    assert_eq!(menu.on_online_clicked(false, LoginStateStatus::Idle), None);
    assert!(menu.server_settings_modal.is_open());
    menu.on_server_settings_event(ModalEvent::SetServerSettings);
    assert!(!menu.server_settings_modal.is_open());
    assert!(menu.login_or_register_modal.is_open());
    menu.on_login_or_register_event(ModalEvent::ChooseLogin);
    assert!(menu.login_modal.is_open());
    assert_eq!(menu.on_login_event(ModalEvent::LoginSuccess), Some(ViewID::OnlineHome));
    assert!(!menu.login_modal.is_open());
    // once logged in, the button goes straight online
    assert_eq!(
        menu.on_online_clicked(true, LoginStateStatus::Success),
        Some(ViewID::OnlineHome)
    );
    assert_eq!(menu.on_sandbox_clicked(), ViewID::Sandbox);
}

#[test]
fn asset_cache_reload_bookkeeping() {
    let mut assets = AssetServer::new();
    let key = giga_chess_core::ui::piece_color_key(Piece::Bishop, Color::Black);
    assert_eq!(key, 8);
    assert!(assets.needs_reload(key, 64));
    assets.note_loaded(key, 64);
    assert!(!assets.needs_reload(key, 64));
    assert!(assets.needs_reload(key, 128));
    assets.note_loaded(key, 128);
    assert!(!assets.needs_reload(key, 128));
}

#[test]
fn windows_toggle() {
    let mut w = GameControlWindow::new();
    assert!(!w.is_open());
    w.set_open(true);
    assert!(w.is_open());
    w.set_open(false);
    assert!(!w.is_open());
}

#[test]
fn every_placement_holder_answers_through_the_shared_trait() {
    let engine = Engine::new();
    let mut game = giga_chess_core::game::Game::new(&engine, PGNMetadata::from_timestamp(0));
    assert!(game.play_move_from_to(&engine, sq(5, 2), sq(5, 4), None));
    // the game, its current snapshot and its bare board all agree
    let e4 = sq(5, 4);
    assert_eq!(game.piece_color_at(e4), Some((Piece::Pawn, Color::White)));
    let snapshot = game.current_state();
    assert_eq!(snapshot.piece_color_at(e4), Some((Piece::Pawn, Color::White)));
    assert_eq!(game.board().piece_color_at(e4), Some((Piece::Pawn, Color::White)));
    // the recorded snapshot after the first move carries the position
    let recorded = game.state_at(0);
    assert_eq!(recorded.side_to_move(), Color::Black);
    assert_eq!(recorded.halfmove_clock(), 0);
    assert!(recorded.castling_rights().white_king_side);
    // the double push just made leaves a capture-in-passing square
    let ep = recorded.en_passant_square().unwrap();
    assert_eq!(ep, sq(5, 3));
}

#[test]
fn game_status_is_comparable() {
    assert_ne!(GameStatus::Running, GameStatus::Checkmate);
    assert_eq!(GameStatus::Draw, GameStatus::Draw);
}
