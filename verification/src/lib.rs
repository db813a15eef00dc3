//! A ledger of per-user, per-asset balances in which every mutation is applied
//! exactly once per order number and recorded as an immutable audit entry.

pub mod constant;
pub mod decimal;
pub mod error;
pub mod model;
pub mod store;
pub mod service;
pub mod request;
pub mod laws;
pub mod utils;
