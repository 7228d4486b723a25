//! A player of the game 2048, proved.
//!
//! The board is sixteen tile ranks packed into one 64-bit word, and every
//! function of the library is stated and proved against the board as a
//! sequence of sixteen ranks:
//!
//! - `board` holds the word, its cells and its symmetries; `census` counts
//!   what lies on it; `symmetry` walks its eight images.
//! - `row` slides one line of four cells, `tables` holds the result for
//!   every line, and `slide` moves the whole board.
//! - `spawner` places the new tiles and `game` plays a game move by move.
//! - `single`, `search` and `cache` are what a search of the game tree
//!   rests on: how numbers compare, which moves and cells there are, which
//!   move is best and what is known already. `expectimax` is the search
//!   itself, and `policy` decides a turn: how deep to search, and when to
//!   search again.
//! - `heuristic` and `patterns` count and cut out what an evaluation of a
//!   board weighs; `movavg` keeps a moving average.
//! - `record` and `controls` are the log of a game and the keys of its
//!   viewer.

pub mod board;
pub mod cache;
pub mod census;
pub mod controls;
pub mod expectimax;
pub mod game;
pub mod heuristic;
pub mod movavg;
pub mod patterns;
pub mod policy;
pub mod record;
pub mod row;
pub mod search;
pub mod single;
pub mod slide;
pub mod spawner;
pub mod symmetry;
pub mod tables;
