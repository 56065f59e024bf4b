//! A ledger that replays deposits, withdrawals, disputes, resolutions and
//! chargebacks against per-client accounts.
//!
//! Amounts are fixed-point numbers with four decimal places. Every operation
//! is described by a mathematical transition on the view of an account, and
//! the executable code is proved to follow that transition.

pub mod amount;
pub mod client;
pub mod decimal;
pub mod error;
pub mod laws;
pub mod record;
pub mod render;
pub mod replay;
pub mod report;
pub mod transaction;

pub use replay::handle_transactions;
use vstd::prelude::*;

verus! {

/// Unique client identifier.
pub type ClientID = u16;

/// Unique transaction identifier.
pub type TransactionID = u32;

} // verus!
