//! Kōnane rules and search engine: board model, game-state machine,
//! legal-move generation with chained captures, Zobrist fingerprints,
//! and the search-node adapter used by a minimax search.

pub mod grid;
pub mod state;
pub mod zhash;
pub mod rules;
pub mod player;
pub mod ai;
pub mod text;
pub mod game_over;
pub mod import;
pub mod laws;
pub mod setup;
pub mod board_view;
pub mod wav;
