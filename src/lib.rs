//! The state engine of a fundraising campaign: a ledger of contributions, a
//! bounded ranking of the largest contributors, per-contributor day streaks,
//! and the rules that open and close contributions and refunds. A small
//! single-balance token sits beside it.

pub mod campaign;
pub mod error;
pub mod identity;
pub mod leaderboard;
pub mod ledger;
pub mod streak;
pub mod table;
pub mod token;

pub use identity::Identity;
