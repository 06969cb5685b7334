//! The configuration every component is handed at startup, constructed
//! once by the process entry point and passed in explicitly — no ambient
//! global state.  Loading and validating the file is the entry point's
//! work; missing or invalid configuration is a fatal startup error there.

use vstd::prelude::*;

verus! {

#[derive(Clone)]
pub struct App {
    /// The top-N bound on each side of a published summary.
    pub summary_size: usize,
    /// Bounded capacity of the ingestion queue: the sole backpressure
    /// mechanism in the pipeline.
    pub channel_capacity: usize,
}

#[derive(Clone)]
pub struct Binance {
    pub currency_pair: String,
    pub depth: usize,
    pub latency: String,
}

#[derive(Clone)]
pub struct Bitstamp {
    pub currency_pair: String,
}

#[derive(Clone)]
pub struct Server {
    pub address: String,
}

#[derive(Clone)]
pub struct Settings {
    pub app: App,
    pub binance: Binance,
    pub bitstamp: Bitstamp,
    pub server: Server,
}

} // verus!
