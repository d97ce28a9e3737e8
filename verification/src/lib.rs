//! A stake program: delegation of lamports to validators, rate-limited
//! activation and deactivation of stake, and redemption of voting rewards.
//!
//! - [`history`]: the per-epoch record of the cluster's stake totals.
//! - [`delegation`]: how much of a delegation is effective in an epoch.
//! - [`rewards`]: what a delegation earns, and the payment of it.
//! - [`state`], [`account`]: what a stake account holds, and how it persists.
//! - [`instruction`], [`processor`], [`entrypoint`]: the five instructions,
//!   their encoding, and the entry point of the runtime.
//! - [`rpc_service`]: the decisions of the query service in front of it all.
//! - [`codec`], [`pubkey`], [`error`]: fields, identifiers and failures.

pub mod account;
pub mod codec;
pub mod delegation;
pub mod entrypoint;
pub mod error;
pub mod history;
pub mod instruction;
pub mod processor;
pub mod pubkey;
pub mod rewards;
pub mod rpc_service;
pub mod state;
