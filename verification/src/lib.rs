//! An ephemeral multiplayer grid game: per-session game state machines
//! (grid, movement, bomb timing, surroundings queries) behind a bounded
//! session store with insertion-ordered eviction.

pub mod command;
pub mod game;
pub mod responses;
pub mod state;
pub mod templates;
