//! A branching book: pages of text, buttons that move between them, and a scoreboard of
//! finished runs.

pub mod content;
pub mod engine;
pub mod leaderboard;
