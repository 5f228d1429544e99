//! Terminal tic-tac-toe, with a verified game core.
//!
//! The heart of the game is an exhaustive minimax search over the
//! tic-tac-toe game tree: `ai` holds the terminal-state evaluator and
//! the searcher, `game` the turn-based state machine that the user
//! interface drives.

pub mod ai;
pub mod game;
