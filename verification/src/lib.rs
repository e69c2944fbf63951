//! Verified core of a small chess web service: account and session stores,
//! the request decisions behind its pages, the bot game state machine and
//! the bookkeeping of the engine processes.

pub mod game;
pub mod models;
pub mod routing;
pub mod stockfish_interface;
pub mod utils;
