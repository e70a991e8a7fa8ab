//! Settings of the outside services.

pub mod jupiter;
pub mod mailchimp;
pub mod wallet_holdings;
