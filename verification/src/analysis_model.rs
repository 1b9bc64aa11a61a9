//! Input parameters and the output record of an analysis run.

use vstd::prelude::*;

verus! {

/// Selects which index's constituents to analyze; all of them when no
/// code is given.
#[derive(Clone, Debug)]
pub struct IndexAnalysisParams {
    /// Code of the index, if one is singled out.
    pub code: Option<String>,
}

/// Selects which funds to analyze; all of them when no code is given.
#[derive(Clone, Debug)]
pub struct FundsAnalysisParams {
    /// Code of the fund, if one is singled out.
    pub code: Option<String>,
}

/// Selects one instrument to analyze.
#[derive(Clone, Debug)]
pub struct StockAnalysisParams {
    /// Code of the instrument.
    pub code: String,
}

/// The outcome of analyzing one instrument as of one day: its code and
/// name, the latest close, the derived support and resistance levels, and
/// the names of every matched pattern in evaluation order. Prices are in
/// thousandths of a unit. The record is assembled once and never mutated.
#[derive(Clone, Debug)]
pub struct AnalyzedStock {
    /// Code of the instrument.
    pub code: String,
    /// Display name of the instrument.
    pub name: String,
    /// Latest close, in thousandths of a unit.
    pub current: u64,
    /// Derived support level, never above the latest close.
    pub support: u64,
    /// Derived resistance level, never below the latest close.
    pub resistance: u64,
    /// Names of the matched patterns, in evaluation order: all candlestick
    /// matches first, then trend matches only when a candlestick matched.
    pub pattern: Vec<String>,
}

} // verus!
