//! Core rules engine for a chess application: board representation, legal
//! move generation (including castling, en passant, promotion, pins and
//! checks), the per-match game state machine, and a byte-level persistence
//! format for whole games.  The engine is pure and deterministic: no I/O,
//! no clocks, no randomness.

pub mod color;
pub mod piece;
pub mod square;
pub mod board;
pub mod moves;
pub mod state;
pub mod rules;
pub mod engine;
pub mod pgn;
pub mod game;
pub mod codec;
pub mod app_game;
pub mod traits;
pub mod login;
pub mod validation;
pub mod persist;
pub mod ui;
