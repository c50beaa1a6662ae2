//! rchess: the rules of chess, a minimax engine with its opening book and transposition
//! table, the text formats of the client (settings, FEN, PGN, UCI, notation, puzzles) and
//! the relay server's protocol, rooms, authentication, chat and admin API, each with its
//! contract proved by Verus.
//!
//! The laws that span several functions stand in `relay` (the wire format and the room
//! invariants), `auth` (invite links), `chat` (encryption), `config_law` (the settings file)
//! and `persist_law` (the room files).

pub mod engine;
pub mod text;
pub mod tt;
pub mod ai;
pub mod sort;
pub mod num;
pub mod config;
pub mod notation;
pub mod game;
pub mod book;
pub mod server_config;
pub mod relay;
pub mod auth;
pub mod buckets;
pub mod room_chat;
pub mod admin;
pub mod network;
pub mod chat;
pub mod pieces;
pub mod puzzle;
pub mod analysis;
pub mod pgn;
pub mod export;
pub mod persist;
pub mod play;
pub mod client_game;
pub mod online_setup;
pub mod board_view;
pub mod ui_text;
pub mod config_law;
pub mod persist_law;
pub mod settings_screen;
pub mod rules_law;
