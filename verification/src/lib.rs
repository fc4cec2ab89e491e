//! Match statistics for rugby league: teams, match phases, recorded events,
//! derived statistics, and the keyboard-driven recording workflow.

pub mod models;
pub mod text;
pub mod input;
pub mod app;
pub mod export;
pub mod ui;
pub mod laws;
