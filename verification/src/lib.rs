//! Verified core of a chess session played against an external engine.
//!
//! The library owns the game-session state machine (selection, promotion,
//! move history with undo and a time-travel view mode), the algebraic
//! notation generator, and the text protocol spoken to the engine process.
//! Board legality itself comes from the `chess` crate, reached only through
//! the narrow trusted boundary in [`chessio`].

use vstd::prelude::*;

pub mod chessio;
pub mod engine;
pub mod error;
pub mod fen;
pub mod game;
pub mod model;
pub mod notation;

verus! {

/// Configuration handed to the application at startup.
#[derive(Debug, Clone, Default)]
pub struct AppFlags {
    pub engine_path: String,
    pub skill_level: u8,
    pub think_time: u64,
    pub play_as_black: bool,
}

/// Which screen the application shows: the game itself, or the position
/// setup workspace.
#[derive(Debug)]
pub enum AppScreen {
    Game,
    Setup(crate::fen::SetupState),
}

} // verus!
