//! A binary-outcome prediction-market engine: markets backed by a single
//! collateral token, traded against a constant-product automated market
//! maker, resolved through a bonded, disputable assertion process.
//!
//! The modules hold the authoritative market ledger and its state machine.
//! All decisions (validation, pricing, liquidity accounting, lifecycle
//! transitions) are made here over plain values; the surrounding runtime
//! performs the external calls that the returned receipts describe and
//! feeds their outcomes back in.

pub mod amm;
pub mod contract;
pub mod events;
pub mod hexutil;
pub mod ingest;
pub mod resolution;
pub mod outcome_token;
pub mod prims;
pub mod redemption;
pub mod types;
