//! Core of a desktop trading terminal: decoding of streaming wire messages,
//! reconnect supervision for the two long-lived streams, and incremental
//! aggregation of bar ticks into a time-bucketed candle series.

pub mod account;
pub mod chart;
pub mod decimal;
pub mod stream;
pub mod supervisor;
pub mod terminal;
pub mod timeframe;
