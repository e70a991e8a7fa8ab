pub mod badge;
pub mod beta_applicant;
pub mod leaderboard;
