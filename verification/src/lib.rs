//! Accounting engine of a continuous token-swap stream: a fixed output supply
//! is released linearly over a time window to subscribers in proportion to
//! their share of a pooled input asset.

pub mod accounts;
pub mod address;
pub mod contract;
pub mod decimal;
pub mod error;
pub mod helpers;
pub mod killswitch;
pub mod laws;
pub mod ledger;
pub mod msg;
pub mod payment;
pub mod position;
pub mod query;
pub mod settlement;
pub mod state;
pub mod stream;
pub mod subdivision;
