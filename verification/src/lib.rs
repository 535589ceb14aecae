//! Ranking core of a rhythm-racing game's score service.
//!
//! The library keeps each player's best score per song and league,
//! detects when a submission dethrones another player's top score,
//! evaluates rivalry mutuality, and assembles the three ranked
//! leaderboard views (global, rival, nearby) for every league.

pub mod game_types;
pub mod errors;
pub mod rivalries;
pub mod players;
pub mod songs;
pub mod scores;
pub mod rides;
pub mod cache;
pub mod dethrone;
pub mod leaderboard;
pub mod parse;
pub mod gameplay;
