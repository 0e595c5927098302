//! A token ledger with staking, tipping, referrals and governance, written as a
//! state machine whose every transition is specified and proved.
pub mod error;
pub mod model;
pub mod contract;
pub mod laws;

pub use contract::{Contract, Proposal, Transfer};
pub use error::ContractError;
