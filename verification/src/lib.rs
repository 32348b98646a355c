//! A two-player chess game: board rules, move commands, FEN export and the
//! decisions of the game loop.
pub mod board;
pub mod game;
pub mod rules;
pub mod text;
pub mod command;
pub mod fen;
pub mod engine;
pub mod turn;
pub mod movement;
pub mod check_laws;
pub mod turn_laws;
pub mod laws;
