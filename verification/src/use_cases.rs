//! The rules of the engine, on plain values.

pub mod badge;
pub mod beta_applicant;
pub mod engine;
pub mod progression;
pub mod sync;
pub mod leaderboard;
