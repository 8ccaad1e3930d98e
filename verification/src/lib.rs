//! The rules of a falling-block puzzle: a board of ten columns and twenty
//! rows, seven kinds of pieces that fall, turn and lock, rows that are
//! cleared when they are full, a score and a level.
//!
//! `Game` is the game as a program plays it. `GameView` is the game as the
//! contracts speak of it, and the functions of `rules` say what each
//! operation makes of it. `laws` holds what follows for every game.

pub mod board;
pub mod game;
pub mod laws;
pub mod piece;
pub mod random;
pub mod rules;

pub use board::{BOARD_H, BOARD_W};
pub use game::Game;
pub use piece::{blocks_for, Cell, Piece, Tetromino, SHAPES};
pub use rules::{GameView, Step, KICKS};
