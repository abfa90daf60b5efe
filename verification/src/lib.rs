//! A verified core for a multi-exchange price-feed aggregator.
//!
//! The library normalizes heterogeneous exchange tick messages into one
//! canonical price-update event, tracks per-source health and per-symbol
//! freshness, and computes the exact key/value strings written through to an
//! external cache. Prices are fixed-point integers with eight fractional
//! decimal digits, so every derivation in here is exact integer arithmetic.

pub mod clock;
pub mod exchanges;
pub mod json;
pub mod price;
pub mod publisher;
pub mod text;
pub mod transport;
pub mod types;

