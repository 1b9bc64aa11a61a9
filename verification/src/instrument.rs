//! Instrument metadata the classifiers read.

use vstd::prelude::*;

verus! {

/// What kind of tradable instrument a code identifies. The kind
/// parameterizes classifier thresholds: funds move less per day, so their
/// required consecutive-decline run is one day longer than a stock's, and
/// an index is treated like a stock.
#[derive(Clone, Copy, Debug, PartialEq, Eq, Structural)]
pub enum InstrumentKind {
    Stock,
    Fund,
    Index,
}

/// An instrument: its code, its display name, and its kind.
#[derive(Clone, Debug)]
pub struct Instrument {
    /// Code identifying the instrument.
    pub code: String,
    /// Display name.
    pub name: String,
    /// Kind, which parameterizes classifier thresholds.
    pub kind: InstrumentKind,
    /// Alternative code under which data providers list the instrument,
    /// if any.
    pub to_code: Option<String>,
}

impl Instrument {
    /// The symbol to query data providers with: the alternative code when
    /// one is set, the instrument's own code otherwise.
    pub fn get_search_symbol(&self) -> (r: String)
        ensures
            r@ == (match self.to_code {
                Some(t) => t@,
                None => self.code@,
            }),
    {
        match &self.to_code {
            Some(t) => t.clone(),
            None => self.code.clone(),
        }
    }
}

} // verus!
