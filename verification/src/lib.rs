//! Cross-venue arbitrage library: a keyed market-data store, per-venue
//! wire-protocol state machines, and an arbitrage evaluation engine over
//! exact fixed-point arithmetic.

pub mod collector;
pub mod coordinator;
pub mod json;
pub mod num;
pub mod parse;
pub mod store;
pub mod strategy;
pub mod text;

pub use num::{Amount, Price, Rate};
