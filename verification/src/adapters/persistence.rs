pub mod badge;
pub mod badge_group;
pub mod beta_applicant_badge;
pub mod beta_applicant_progression;
pub mod cat;
pub mod leaderboard;
pub mod store_error;
