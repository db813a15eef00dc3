//! The rows of the store and the operations on them.

pub mod account;
pub mod account_log;
pub mod action_type;
pub mod asset_type;
