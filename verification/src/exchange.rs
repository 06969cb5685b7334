pub mod binance;
pub mod bitstamp;
pub mod util;
