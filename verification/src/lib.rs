//! Technical pattern and level engine for daily price histories.
//!
//! The engine classifies an instrument's candlestick series against a fixed
//! library of technical-analysis rules and derives near-term support and
//! resistance levels. It is a deterministic, stateless function of the input
//! series: fetching prices, persistence, scheduling and notification all live
//! outside this crate.

pub mod analysis_model;
pub mod analysis_svc;
pub mod bar;
pub mod exchange;
pub mod holiday;
pub mod instrument;
pub mod stock_calculate;
pub mod stock_pattern;
