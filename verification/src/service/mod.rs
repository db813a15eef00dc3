//! The operations the ledger offers.

pub mod account;
pub mod action_type;
pub mod asset_type;
