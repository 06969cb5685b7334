//! Cross-venue order-book aggregation.
//!
//! Venue connectors normalize exchange order-book messages into a common
//! quote format; the aggregation engine merges the latest snapshot from each
//! venue into a ranked, size-bounded summary; the summary is fanned out to
//! independent subscribers; a cooperative shutdown protocol drains every
//! task.  Prices and amounts are fixed-point integers (10^8 minor units per
//! whole unit), parsed exactly from the decimal strings the venues send.

pub mod exchange;
pub mod json;
pub mod msg;
pub mod orderbook;
pub mod price;
pub mod server;
pub mod settings;
pub mod shutdown;
pub mod text;
