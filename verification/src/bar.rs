//! Daily bars and the candle metrics derived from one bar.
//!
//! Prices and volumes are exact decimals with three fractional digits,
//! stored as integer counts of thousandths of a unit. All comparisons the
//! engine makes are therefore exact integer comparisons; no binary floating
//! point is involved anywhere.

use vstd::prelude::*;

verus! {

/// Upper bound on any price or volume the engine accepts, counted in
/// thousandths of a unit (one thousand billion units). Keeping fields below
/// this bound lets every derived sum and scaled product in the engine fit in
/// 128-bit intermediate arithmetic.
pub const PRICE_MAX: u64 = 1_000_000_000_000_000;

/// One trading day of one instrument: an OHLCV record.
///
/// `volume` and `amount` are absent when the data source reported none;
/// an absent volume means "no volume confirmation available" to the
/// pattern classifiers.
#[derive(Clone, Debug)]
pub struct DailyBar {
    /// Calendar key, ascending and unique within a series.
    pub date: u64,
    /// Opening price, in thousandths of a unit.
    pub open: u64,
    /// Highest traded price, in thousandths of a unit.
    pub high: u64,
    /// Lowest traded price, in thousandths of a unit.
    pub low: u64,
    /// Closing price, in thousandths of a unit.
    pub close: u64,
    /// Traded volume, in thousandths, if reported.
    pub volume: Option<u64>,
    /// Traded amount, in thousandths, if reported.
    pub amount: Option<u64>,
}

impl DailyBar {
    /// A well-formed bar keeps open and close inside the day's range and
    /// all magnitudes below the engine's bound.
    pub open spec fn wf(self) -> bool {
        &&& self.low <= self.open <= self.high
        &&& self.low <= self.close <= self.high
        &&& self.high <= PRICE_MAX
        &&& match self.volume {
            Some(v) => v <= PRICE_MAX,
            None => true,
        }
    }

    /// The larger of open and close: the top of the real body.
    pub open spec fn spec_body_top(self) -> int {
        if self.open >= self.close {
            self.open as int
        } else {
            self.close as int
        }
    }

    /// The smaller of open and close: the bottom of the real body.
    pub open spec fn spec_body_bottom(self) -> int {
        if self.open <= self.close {
            self.open as int
        } else {
            self.close as int
        }
    }

    /// Absolute difference between close and open.
    pub open spec fn spec_real_body(self) -> int {
        self.spec_body_top() - self.spec_body_bottom()
    }

    /// Range above the real body.
    pub open spec fn spec_upper_shadow(self) -> int {
        self.high - self.spec_body_top()
    }

    /// Range below the real body.
    pub open spec fn spec_lower_shadow(self) -> int {
        self.spec_body_bottom() - self.low
    }

    /// Twice the middle price of the day. The middle price itself,
    /// `(high + low) / 2`, may fall between two thousandths, so the engine
    /// carries its doubled value and compares doubled quantities, which is
    /// exact.
    pub open spec fn spec_middle_price_doubled(self) -> int {
        self.high + self.low
    }

    /// The day closed above its open.
    pub open spec fn spec_is_up(self) -> bool {
        self.close > self.open
    }

    /// The day closed below its open.
    pub open spec fn spec_is_down(self) -> bool {
        self.close < self.open
    }

    /// A day without a price range: nothing traded. Such a day is excluded
    /// from pattern matching but not from moving-average windows.
    pub open spec fn spec_is_no_trade(self) -> bool {
        self.high == self.low
    }

    /// Absolute difference between close and open.
    pub fn get_real_body(&self) -> (r: u64)
        ensures
            r == self.spec_real_body(),
    {
        if self.close >= self.open {
            self.close - self.open
        } else {
            self.open - self.close
        }
    }

    /// Range above the real body.
    pub fn get_upper_shadow(&self) -> (r: u64)
        requires
            self.wf(),
        ensures
            r == self.spec_upper_shadow(),
    {
        let top = if self.open >= self.close {
            self.open
        } else {
            self.close
        };
        self.high - top
    }

    /// Range below the real body.
    pub fn get_lower_shadow(&self) -> (r: u64)
        requires
            self.wf(),
        ensures
            r == self.spec_lower_shadow(),
    {
        let bottom = if self.open <= self.close {
            self.open
        } else {
            self.close
        };
        bottom - self.low
    }

    /// Twice the middle price of the day; see `spec_middle_price_doubled`.
    pub fn get_middle_price_doubled(&self) -> (r: u64)
        requires
            self.wf(),
        ensures
            r == self.spec_middle_price_doubled(),
    {
        self.high + self.low
    }

    /// The day closed above its open.
    pub fn is_up(&self) -> (r: bool)
        ensures
            r == self.spec_is_up(),
    {
        self.close > self.open
    }

    /// The day closed below its open.
    pub fn is_down(&self) -> (r: bool)
        ensures
            r == self.spec_is_down(),
    {
        self.close < self.open
    }

    /// A day without a price range; see `spec_is_no_trade`.
    pub fn is_no_trade(&self) -> (r: bool)
        ensures
            r == self.spec_is_no_trade(),
    {
        self.high == self.low
    }
}

/// Every bar of the series is well-formed. The price-series provider
/// guarantees this; the engine does not re-validate it.
pub open spec fn series_wf(s: Seq<DailyBar>) -> bool {
    forall|i: int| 0 <= i < s.len() ==> (#[trigger] s[i]).wf()
}

} // verus!
