//! Consistency engine of a gamified waitlist: progression counters, badge
//! awards, leaderboard ranks and referral resolution, with the presentation
//! helpers that sit around them.

pub mod adapters;
pub mod app_error;
pub mod entities;
pub mod infrastructure;
pub mod text;
pub mod use_cases;
