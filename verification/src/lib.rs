//! Guardian sessions, agreement bookkeeping and the staking payout curve.
mod ids;

pub use ids::{same_id, IdMap};
pub mod inflation;
pub mod session;
pub mod transaction;
pub mod agreements;
pub mod historical;
pub mod laws;
