//! The pattern registry: candlestick and trend classifiers.
//!
//! Every classifier is a stateless predicate over the instrument metadata
//! and the full bar series. The candlestick set reads the geometry of the
//! latest one or two bars, demands a consecutive-decline run whose length
//! depends on the instrument kind, and confirms with volume; the trend set
//! reads moving averages of the close and volume columns. All threshold
//! comparisons are exact: ratios are compared by cross-multiplication in
//! wide integer arithmetic, never by division or floating point.

use vstd::prelude::*;

use crate::bar::{series_wf, DailyBar, PRICE_MAX};
use crate::instrument::{Instrument, InstrumentKind};
use crate::stock_calculate::{
    close_col, close_column, decline_run, down_at_least, ma, ma_at, window_clamp,
};

verus! {

/// Base length of the consecutive-decline run a candlestick pattern
/// demands.
pub const DOWN_AT_LEAST_DAYS: i32 = 4;

/// Required decline run for stocks and indexes.
pub const STOCK_DOWN_AT_LEAST_DAYS: i32 = DOWN_AT_LEAST_DAYS;

/// Required decline run for funds: one day longer, because funds move
/// less per day.
pub const FUND_DOWN_AT_LEAST_DAYS: i32 = DOWN_AT_LEAST_DAYS + 1;

/// Window of the volume moving average that candlestick patterns confirm
/// against.
pub const VOLUME_MA_DAYS: usize = 20;

/// Required decline-run length for an instrument kind: the base length for
/// stocks and indexes, one day more for funds.
pub open spec fn spec_required_run(kind: InstrumentKind) -> int {
    if kind is Fund {
        FUND_DOWN_AT_LEAST_DAYS as int
    } else {
        STOCK_DOWN_AT_LEAST_DAYS as int
    }
}

fn required_down_days(stock: &Instrument) -> (n: i32)
    ensures
        n as int == spec_required_run(stock.kind),
{
    if stock.kind == InstrumentKind::Fund {
        FUND_DOWN_AT_LEAST_DAYS
    } else {
        STOCK_DOWN_AT_LEAST_DAYS
    }
}

/// The latest volume strictly exceeds the previous day's. An absent volume
/// is "no confirmation available" and never confirms.
pub open spec fn spec_volume_up(last: DailyBar, prev: DailyBar) -> bool {
    match (last.volume, prev.volume) {
        (Some(v), Some(pv)) => v > pv,
        _ => false,
    }
}

/// The latest volume is at least 1.2 times the previous day's, compared
/// exactly by cross-multiplication. An absent volume never confirms.
pub open spec fn spec_volume_surge(last: DailyBar, prev: DailyBar) -> bool {
    match (last.volume, prev.volume) {
        (Some(v), Some(pv)) => 10 * v >= 12 * pv,
        _ => false,
    }
}

/// The volume column of a series, one optional value per bar.
pub open spec fn vol_col(s: Seq<DailyBar>) -> Seq<Option<u64>> {
    Seq::new(s.len(), |i: int| s[i].volume)
}

/// Number of present values in an optional column.
pub open spec fn present_count(s: Seq<Option<u64>>) -> int
    decreases s.len(),
{
    if s.len() == 0 {
        0
    } else {
        present_count(s.drop_last()) + if s.last() is Some {
            1int
        } else {
            0int
        }
    }
}

/// Sum of the present values in an optional column.
pub open spec fn present_sum(s: Seq<Option<u64>>) -> int
    decreases s.len(),
{
    if s.len() == 0 {
        0
    } else {
        present_sum(s.drop_last()) + match s.last() {
            Some(v) => v as int,
            None => 0int,
        }
    }
}

/// The volume moving average at index `k` with window `n` (clamped to the
/// series length): the rounded mean of the volumes reported inside the
/// usual moving-average window, skipping absent ones; undefined when the
/// window reports no volume at all.
pub open spec fn spec_volume_ma_at(s: Seq<DailyBar>, n: int, k: int) -> Option<int>
    recommends
        1 <= n,
        0 <= k < s.len(),
{
    let w = window_clamp(s.len() as int, n);
    let win = if k < w {
        vol_col(s).take(w)
    } else {
        vol_col(s).subrange(k - w + 1, k + 1)
    };
    let cnt = present_count(win);
    if cnt > 0 {
        Some((2 * present_sum(win) + cnt) / (2 * cnt))
    } else {
        None
    }
}

proof fn lemma_present_step(s: Seq<Option<u64>>, k: int)
    requires
        0 <= k < s.len(),
    ensures
        present_count(s.subrange(0, k + 1)) == present_count(s.subrange(0, k)) + if s[k] is Some {
            1int
        } else {
            0int
        },
        present_sum(s.subrange(0, k + 1)) == present_sum(s.subrange(0, k)) + match s[k] {
            Some(v) => v as int,
            None => 0int,
        },
{
    let a = s.subrange(0, k + 1);
    assert(a.drop_last() =~= s.subrange(0, k));
    assert(a.last() == s[k]);
}

proof fn lemma_present_bounds(s: Seq<Option<u64>>)
    requires
        forall|i: int|
            0 <= i < s.len() ==> match #[trigger] s[i] {
                Some(v) => v <= PRICE_MAX,
                None => true,
            },
    ensures
        0 <= present_count(s) <= s.len(),
        0 <= present_sum(s) <= present_count(s) * PRICE_MAX,
    decreases s.len(),
{
    if s.len() > 0 {
        lemma_present_bounds(s.drop_last());
    }
}

proof fn lemma_present_mean_bounds(s: Seq<Option<u64>>)
    requires
        present_count(s) > 0,
        forall|i: int|
            0 <= i < s.len() ==> match #[trigger] s[i] {
                Some(v) => v <= PRICE_MAX,
                None => true,
            },
    ensures
        0 <= (2 * present_sum(s) + present_count(s)) / (2 * present_count(s)) <= PRICE_MAX,
{
    lemma_present_bounds(s);
    let ps = present_sum(s);
    let c = present_count(s);
    assert(0 <= (2 * ps + c) / (2 * c) <= PRICE_MAX) by (nonlinear_arith)
        requires
            0 <= ps <= c * PRICE_MAX,
            c >= 1,
    {}
}

/// The volume moving average at index `k`, or nothing when the window
/// reports no volume; see `spec_volume_ma_at`.
#[verifier::loop_isolation(false)]
fn volume_ma_at(prices: &[DailyBar], n: usize, k: usize) -> (r: Option<u64>)
    requires
        1 <= n,
        k < prices@.len(),
        series_wf(prices@),
    ensures
        r is Some <==> spec_volume_ma_at(prices@, n as int, k as int) is Some,
        match r {
            Some(v) => spec_volume_ma_at(prices@, n as int, k as int) == Some(v as int),
            None => true,
        },
{
    let len = prices.len();
    let w = if len < n {
        len
    } else {
        n
    };
    let lo: usize = if k < w {
        0
    } else {
        k + 1 - w
    };
    let hi: usize = if k < w {
        w
    } else {
        k + 1
    };
    let ghost vols = vol_col(prices@);
    proof {
        assert forall|i: int| 0 <= i < vols.len() implies match #[trigger] vols[i] {
            Some(v) => v <= PRICE_MAX,
            None => true,
        } by {
            assert(prices@[i].wf());
        }
        if (k as int) < w as int {
            assert(vols.take(w as int) =~= vols.subrange(lo as int, hi as int));
        }
    }
    let mut total: u128 = 0;
    let mut cnt: usize = 0;
    let mut j: usize = lo;
    while j < hi
        invariant
            lo <= j <= hi,
            cnt == present_count(vols.subrange(lo as int, j as int)),
            total == present_sum(vols.subrange(lo as int, j as int)),
        decreases hi - j,
    {
        proof {
            lemma_present_bounds(vols.subrange(lo as int, j as int));
            lemma_present_step(vols.subrange(lo as int, hi as int), j - lo);
            assert(vols.subrange(lo as int, hi as int).subrange(0, j - lo + 1) =~= vols.subrange(
                lo as int,
                j + 1,
            ));
            assert(vols.subrange(lo as int, hi as int).subrange(0, j - lo) =~= vols.subrange(
                lo as int,
                j as int,
            ));
            assert(vols.subrange(lo as int, hi as int)[j - lo] == vols[j as int]);
        }
        match prices[j].volume {
            Some(v) => {
                total = total + v as u128;
                cnt = cnt + 1;
            },
            None => {},
        }
        j = j + 1;
    }
    if cnt == 0 {
        None
    } else {
        proof {
            lemma_present_bounds(vols.subrange(lo as int, hi as int));
            lemma_present_mean_bounds(vols.subrange(lo as int, hi as int));
        }
        let c = cnt as u128;
        Some(((2 * total + c) / (2 * c)) as u64)
    }
}

/// Hammer: the lower shadow dominates the whole range — its share of
/// `lower + body + upper` exceeds 0.618 — after the required decline run,
/// on rising volume confirmed against the volume moving average.
pub open spec fn spec_hammer_matches(kind: InstrumentKind, s: Seq<DailyBar>) -> bool {
    let last = s.last();
    &&& s.len() >= 2
    &&& !last.spec_is_no_trade()
    &&& 1000 * last.spec_lower_shadow() > 618 * (last.spec_lower_shadow() + last.spec_real_body()
        + last.spec_upper_shadow())
    &&& decline_run(s) >= spec_required_run(kind)
    &&& spec_volume_up(last, s[s.len() - 2])
    &&& spec_volume_ma_matches(s, VOLUME_MA_DAYS as int)
}

/// Scale of the doji-star body bound: the body's share of the whole range
/// may be at most 0.01 for stocks and indexes, 0.001 for funds.
pub open spec fn spec_doji_factor_scale(kind: InstrumentKind) -> int {
    if kind is Fund {
        1000
    } else {
        100
    }
}

/// Doji star: a vanishing real body — at most the kind's share of the
/// whole range — with the lower shadow at least as long as the upper,
/// after the required decline run, on rising confirmed volume.
pub open spec fn spec_doji_star_matches(kind: InstrumentKind, s: Seq<DailyBar>) -> bool {
    let last = s.last();
    &&& s.len() >= 2
    &&& !last.spec_is_no_trade()
    &&& spec_doji_factor_scale(kind) * last.spec_real_body() <= last.spec_lower_shadow()
        + last.spec_real_body() + last.spec_upper_shadow()
    &&& last.spec_lower_shadow() >= last.spec_upper_shadow()
    &&& decline_run(s) >= spec_required_run(kind)
    &&& spec_volume_up(last, s[s.len() - 2])
    &&& spec_volume_ma_matches(s, VOLUME_MA_DAYS as int)
}

/// Bullish engulfing: an up day whose body fully engulfs the previous down
/// day's open and close and outweighs both that body and twice its own
/// upper shadow, after a decline run over the series without the latest
/// day, on surging confirmed volume.
pub open spec fn spec_bullish_engulfing_matches(kind: InstrumentKind, s: Seq<DailyBar>) -> bool {
    let last = s.last();
    let prev = s[s.len() - 2];
    &&& s.len() >= 2
    &&& !last.spec_is_no_trade()
    &&& last.spec_is_up()
    &&& prev.spec_is_down()
    &&& last.open < prev.close
    &&& last.close > prev.open
    &&& last.spec_real_body() > prev.spec_real_body()
    &&& last.spec_real_body() > 2 * last.spec_upper_shadow()
    &&& decline_run(s.drop_last()) >= spec_required_run(kind)
    &&& spec_volume_surge(last, prev)
    &&& spec_volume_ma_matches(s, VOLUME_MA_DAYS as int)
}

/// Piercing: an up day opening below the previous down day's close and
/// closing above its middle price yet below its open, with a body over
/// twice the upper shadow, after a decline run over the series without the
/// latest day, on surging confirmed volume.
pub open spec fn spec_piercing_matches(kind: InstrumentKind, s: Seq<DailyBar>) -> bool {
    let last = s.last();
    let prev = s[s.len() - 2];
    &&& s.len() >= 2
    &&& !last.spec_is_no_trade()
    &&& last.spec_is_up()
    &&& prev.spec_is_down()
    &&& last.open < prev.close
    &&& 2 * last.close > prev.spec_middle_price_doubled()
    &&& last.close < prev.open
    &&& last.spec_real_body() > 2 * last.spec_upper_shadow()
    &&& decline_run(s.drop_last()) >= spec_required_run(kind)
    &&& spec_volume_surge(last, prev)
    &&& spec_volume_ma_matches(s, VOLUME_MA_DAYS as int)
}

/// Rising window: an up day gapping clear above the previous day's high,
/// with a body over twice the upper shadow, after a decline run over the
/// series without the latest day, on rising confirmed volume.
pub open spec fn spec_rising_window_matches(kind: InstrumentKind, s: Seq<DailyBar>) -> bool {
    let last = s.last();
    let prev = s[s.len() - 2];
    &&& s.len() >= 2
    &&& !last.spec_is_no_trade()
    &&& last.spec_is_up()
    &&& last.low > prev.high
    &&& last.spec_real_body() > 2 * last.spec_upper_shadow()
    &&& decline_run(s.drop_last()) >= spec_required_run(kind)
    &&& spec_volume_up(last, prev)
    &&& spec_volume_ma_matches(s, VOLUME_MA_DAYS as int)
}

/// Moving-average trend: the latest close sits on or above the `n`-period
/// moving average of the closes, and that average is rising into the
/// latest index.
pub open spec fn spec_ma_matches(s: Seq<DailyBar>, n: int) -> bool {
    let last = s.last();
    let w = window_clamp(s.len() as int, n);
    &&& s.len() >= 2
    &&& !last.spec_is_no_trade()
    &&& last.close as int >= ma_at(close_col(s), w, s.len() - 1)
    &&& ma_at(close_col(s), w, s.len() - 2) < ma_at(close_col(s), w, s.len() - 1)
}

/// Bias from the moving average: the latest close sits below the
/// `n`-period moving average by at least `bias` thousandths of the
/// average, compared exactly by cross-multiplication.
pub open spec fn spec_bias_matches(s: Seq<DailyBar>, n: int, bias: int) -> bool {
    let last = s.last();
    let w = window_clamp(s.len() as int, n);
    let m = ma_at(close_col(s), w, s.len() - 1);
    &&& s.len() >= 1
    &&& !last.spec_is_no_trade()
    &&& (last.close as int) < m
    &&& 1000 * (m - last.close) >= bias * m
}

/// Volume confirmation: the latest volume reaches the volume moving
/// average evaluated one point before the latest index — today's volume
/// against yesterday's trailing average.
pub open spec fn spec_volume_ma_matches(s: Seq<DailyBar>, n: int) -> bool {
    let last = s.last();
    &&& s.len() >= 2
    &&& !last.spec_is_no_trade()
    &&& match (last.volume, spec_volume_ma_at(s, n, s.len() - 2)) {
        (Some(v), Some(m)) => v as int >= m,
        _ => false,
    }
}

/// Hammer classifier; see `spec_hammer_matches`.
#[derive(Clone, Copy)]
pub struct HammerPattern {}

/// Doji-star classifier; see `spec_doji_star_matches`.
#[derive(Clone, Copy)]
pub struct DojiStarPattern {}

/// Bullish-engulfing classifier; see `spec_bullish_engulfing_matches`.
#[derive(Clone, Copy)]
pub struct BullishEngulfingPattern {}

/// Piercing classifier; see `spec_piercing_matches`.
#[derive(Clone, Copy)]
pub struct PiercingPattern {}

/// Rising-window (gap-up) classifier; see `spec_rising_window_matches`.
#[derive(Clone, Copy)]
pub struct RisingWindowPattern {}

/// Moving-average trend classifier, parameterized by its window; see
/// `spec_ma_matches`.
#[derive(Clone, Copy)]
pub struct MaPattern {
    /// Window of the moving average, at least one period.
    pub ma: usize,
}

/// Bias classifier, parameterized by its window and its threshold in
/// thousandths; see `spec_bias_matches`.
#[derive(Clone, Copy)]
pub struct BIASPattern {
    /// Window of the moving average, at least one period.
    pub ma: usize,
    /// Required deviation below the average, in thousandths of the
    /// average.
    pub bias: u64,
}

/// Volume-confirmation classifier, parameterized by its window; see
/// `spec_volume_ma_matches`.
#[derive(Clone, Copy)]
pub struct VolumeMaPattern {
    /// Window of the volume moving average, at least one period.
    pub ma: usize,
}

impl HammerPattern {
    /// Whether the latest day forms a hammer.
    pub fn is_match(&self, stock: &Instrument, prices: &[DailyBar]) -> (r: bool)
        requires
            prices@.len() >= 2,
            series_wf(prices@),
        ensures
            r == spec_hammer_matches(stock.kind, prices@),
    {
        let len = prices.len();
        let price = &prices[len - 1];
        if price.is_no_trade() {
            return false;
        }
        proof {
            assert(prices@[len - 1].wf());
        }
        let pre_price = &prices[len - 2];
        let real_body = price.get_real_body();
        let lower_shadow = price.get_lower_shadow();
        let upper_shadow = price.get_upper_shadow();
        let n = required_down_days(stock);
        let total = lower_shadow as u128 + real_body as u128 + upper_shadow as u128;
        let volume_pattern = VolumeMaPattern { ma: VOLUME_MA_DAYS };
        1000 * (lower_shadow as u128) > 618 * total && down_at_least(prices, n) && (match (
            price.volume,
            pre_price.volume,
        ) {
            (Some(v), Some(pv)) => v > pv,
            _ => false,
        }) && volume_pattern.is_match(stock, prices)
    }

    /// Display name of the pattern.
    pub fn name(&self) -> (r: String)
        ensures
            r@ == "Hammer"@,
    {
        "Hammer".to_owned()
    }
}

impl DojiStarPattern {
    /// Whether the latest day forms a doji star.
    pub fn is_match(&self, stock: &Instrument, prices: &[DailyBar]) -> (r: bool)
        requires
            prices@.len() >= 2,
            series_wf(prices@),
        ensures
            r == spec_doji_star_matches(stock.kind, prices@),
    {
        let len = prices.len();
        let price = &prices[len - 1];
        if price.is_no_trade() {
            return false;
        }
        proof {
            assert(prices@[len - 1].wf());
        }
        let pre_price = &prices[len - 2];
        let scale: u128 = if stock.kind == InstrumentKind::Fund {
            1000
        } else {
            100
        };
        let real_body = price.get_real_body();
        let lower_shadow = price.get_lower_shadow();
        let upper_shadow = price.get_upper_shadow();
        let n = required_down_days(stock);
        let total = lower_shadow as u128 + real_body as u128 + upper_shadow as u128;
        let volume_pattern = VolumeMaPattern { ma: VOLUME_MA_DAYS };
        scale * (real_body as u128) <= total && lower_shadow >= upper_shadow && down_at_least(
            prices,
            n,
        ) && (match (price.volume, pre_price.volume) {
            (Some(v), Some(pv)) => v > pv,
            _ => false,
        }) && volume_pattern.is_match(stock, prices)
    }

    /// Display name of the pattern.
    pub fn name(&self) -> (r: String)
        ensures
            r@ == "DojiStar"@,
    {
        "DojiStar".to_owned()
    }
}

impl BullishEngulfingPattern {
    /// Whether the latest day bullishly engulfs the previous one.
    pub fn is_match(&self, stock: &Instrument, prices: &[DailyBar]) -> (r: bool)
        requires
            prices@.len() >= 2,
            series_wf(prices@),
        ensures
            r == spec_bullish_engulfing_matches(stock.kind, prices@),
    {
        let len = prices.len();
        let price = &prices[len - 1];
        if price.is_no_trade() {
            return false;
        }
        proof {
            assert(prices@[len - 1].wf());
        }
        let pre_price = &prices[len - 2];
        let real_body = price.get_real_body();
        let upper_shadow = price.get_upper_shadow();
        let pre_real_body = pre_price.get_real_body();
        let n = required_down_days(stock);
        let volume_pattern = VolumeMaPattern { ma: VOLUME_MA_DAYS };
        proof {
            assert(prices@.subrange(0, len - 1) =~= prices@.drop_last());
        }
        price.is_up() && pre_price.is_down() && price.open < pre_price.close && price.close
            > pre_price.open && real_body > pre_real_body && (real_body as u128) > 2 * (
        upper_shadow as u128) && down_at_least(
            vstd::slice::slice_subrange(prices, 0, len - 1),
            n,
        ) && (match (price.volume, pre_price.volume) {
            (Some(v), Some(pv)) => 10 * (v as u128) >= 12 * (pv as u128),
            _ => false,
        }) && volume_pattern.is_match(stock, prices)
    }

    /// Display name of the pattern.
    pub fn name(&self) -> (r: String)
        ensures
            r@ == "BullishEngulfing"@,
    {
        "BullishEngulfing".to_owned()
    }
}

impl PiercingPattern {
    /// Whether the latest day pierces the previous one.
    pub fn is_match(&self, stock: &Instrument, prices: &[DailyBar]) -> (r: bool)
        requires
            prices@.len() >= 2,
            series_wf(prices@),
        ensures
            r == spec_piercing_matches(stock.kind, prices@),
    {
        let len = prices.len();
        let price = &prices[len - 1];
        if price.is_no_trade() {
            return false;
        }
        proof {
            assert(prices@[len - 1].wf());
            assert(prices@[len - 2].wf());
        }
        let pre_price = &prices[len - 2];
        let real_body = price.get_real_body();
        let upper_shadow = price.get_upper_shadow();
        let n = required_down_days(stock);
        let volume_pattern = VolumeMaPattern { ma: VOLUME_MA_DAYS };
        proof {
            assert(prices@.subrange(0, len - 1) =~= prices@.drop_last());
        }
        price.is_up() && pre_price.is_down() && price.open < pre_price.close && 2 * (price.close
            as u128) > pre_price.get_middle_price_doubled() as u128 && price.close < pre_price.open
            && (real_body as u128) > 2 * (upper_shadow as u128) && down_at_least(
            vstd::slice::slice_subrange(prices, 0, len - 1),
            n,
        ) && (match (price.volume, pre_price.volume) {
            (Some(v), Some(pv)) => 10 * (v as u128) >= 12 * (pv as u128),
            _ => false,
        }) && volume_pattern.is_match(stock, prices)
    }

    /// Display name of the pattern.
    pub fn name(&self) -> (r: String)
        ensures
            r@ == "Piercing"@,
    {
        "Piercing".to_owned()
    }
}

impl RisingWindowPattern {
    /// Whether the latest day gaps up clear of the previous one.
    pub fn is_match(&self, stock: &Instrument, prices: &[DailyBar]) -> (r: bool)
        requires
            prices@.len() >= 2,
            series_wf(prices@),
        ensures
            r == spec_rising_window_matches(stock.kind, prices@),
    {
        let len = prices.len();
        let price = &prices[len - 1];
        if price.is_no_trade() {
            return false;
        }
        proof {
            assert(prices@[len - 1].wf());
        }
        let pre_price = &prices[len - 2];
        let real_body = price.get_real_body();
        let upper_shadow = price.get_upper_shadow();
        let n = required_down_days(stock);
        let volume_pattern = VolumeMaPattern { ma: VOLUME_MA_DAYS };
        proof {
            assert(prices@.subrange(0, len - 1) =~= prices@.drop_last());
        }
        price.is_up() && price.low > pre_price.high && (real_body as u128) > 2 * (upper_shadow
            as u128) && down_at_least(vstd::slice::slice_subrange(prices, 0, len - 1), n) && (match (
            price.volume,
            pre_price.volume,
        ) {
            (Some(v), Some(pv)) => v > pv,
            _ => false,
        }) && volume_pattern.is_match(stock, prices)
    }

    /// Display name of the pattern.
    pub fn name(&self) -> (r: String)
        ensures
            r@ == "RisingWindow"@,
    {
        "RisingWindow".to_owned()
    }
}

impl MaPattern {
    /// Whether the close sits on a rising moving average of its window.
    pub fn is_match(&self, _stock: &Instrument, prices: &[DailyBar]) -> (r: bool)
        requires
            prices@.len() >= 2,
            series_wf(prices@),
            self.ma >= 1,
        ensures
            r == spec_ma_matches(prices@, self.ma as int),
    {
        let len = prices.len();
        let price = &prices[len - 1];
        if price.is_no_trade() {
            return false;
        }
        let n = if len < self.ma {
            len
        } else {
            self.ma
        };
        let closes = close_column(prices);
        proof {
            assert forall|i: int| 0 <= i < closes@.len() implies closes@[i] <= PRICE_MAX by {
                assert(prices@[i].wf());
            }
        }
        let m = ma(&closes, n);
        let ma_last = m[len - 1];
        let ma_last_pre = m[len - 2];
        price.close >= ma_last && ma_last_pre < ma_last
    }

    /// Display name of the pattern, carrying its window.
    pub fn name(&self) -> (r: String)
        ensures
            r@ == spec_ma_name(self.ma as int),
    {
        if self.ma == 10 {
            "MA10".to_owned()
        } else if self.ma == 20 {
            "MA20".to_owned()
        } else if self.ma == 200 {
            "MA200".to_owned()
        } else {
            "MA".to_owned()
        }
    }
}

/// Display name of a moving-average trend pattern of window `n`.
pub open spec fn spec_ma_name(n: int) -> Seq<char> {
    if n == 10 {
        "MA10"@
    } else if n == 20 {
        "MA20"@
    } else if n == 200 {
        "MA200"@
    } else {
        "MA"@
    }
}

impl BIASPattern {
    /// Whether the close sits deep below the moving average of its window.
    pub fn is_match(&self, _stock: &Instrument, prices: &[DailyBar]) -> (r: bool)
        requires
            prices@.len() >= 2,
            series_wf(prices@),
            self.ma >= 1,
        ensures
            r == spec_bias_matches(prices@, self.ma as int, self.bias as int),
    {
        let len = prices.len();
        let price = &prices[len - 1];
        if price.is_no_trade() {
            return false;
        }
        let n = if len < self.ma {
            len
        } else {
            self.ma
        };
        let closes = close_column(prices);
        proof {
            assert forall|i: int| 0 <= i < closes@.len() implies closes@[i] <= PRICE_MAX by {
                assert(prices@[i].wf());
            }
        }
        let m = ma(&closes, n);
        let ma_last = m[len - 1];
        if price.close >= ma_last {
            return false;
        }
        let diff = ma_last - price.close;
        let bias_wide = self.bias as u128;
        let ma_wide = ma_last as u128;
        proof {
            assert(bias_wide * ma_wide <= u128::MAX) by (nonlinear_arith)
                requires
                    bias_wide < 0x1_0000_0000_0000_0000u128,
                    ma_wide < 0x1_0000_0000_0000_0000u128,
            {}
        }
        1000 * (diff as u128) >= bias_wide * ma_wide
    }

    /// Display name of the pattern.
    pub fn name(&self) -> (r: String)
        ensures
            r@ == "BIAS"@,
    {
        "BIAS".to_owned()
    }
}

impl VolumeMaPattern {
    /// Whether the latest volume reaches the trailing volume average.
    pub fn is_match(&self, _stock: &Instrument, prices: &[DailyBar]) -> (r: bool)
        requires
            prices@.len() >= 2,
            series_wf(prices@),
            self.ma >= 1,
        ensures
            r == spec_volume_ma_matches(prices@, self.ma as int),
    {
        let len = prices.len();
        let price = &prices[len - 1];
        if price.is_no_trade() {
            return false;
        }
        let vma = volume_ma_at(prices, self.ma, len - 2);
        match (price.volume, vma) {
            (Some(v), Some(m)) => v >= m,
            _ => false,
        }
    }

    /// Display name of the pattern.
    pub fn name(&self) -> (r: String)
        ensures
            r@ == "VOL"@,
    {
        "VOL".to_owned()
    }
}

/// One classifier of the registry, as a tagged variant so that the
/// registry contents and their evaluation order stay statically visible.
#[derive(Clone, Copy)]
pub enum StockPattern {
    /// Hammer candlestick.
    Hammer(HammerPattern),
    /// Doji-star candlestick.
    DojiStar(DojiStarPattern),
    /// Bullish-engulfing candlestick.
    BullishEngulfing(BullishEngulfingPattern),
    /// Piercing candlestick.
    Piercing(PiercingPattern),
    /// Rising-window candlestick.
    RisingWindow(RisingWindowPattern),
    /// Moving-average trend.
    Ma(MaPattern),
    /// Bias from the moving average.
    Bias(BIASPattern),
    /// Volume confirmation.
    VolumeMa(VolumeMaPattern),
}

/// A classifier's window parameters are usable: every moving-average
/// window spans at least one period.
pub open spec fn spec_pattern_wf(p: StockPattern) -> bool {
    match p {
        StockPattern::Ma(mp) => mp.ma >= 1,
        StockPattern::Bias(bp) => bp.ma >= 1,
        StockPattern::VolumeMa(vp) => vp.ma >= 1,
        _ => true,
    }
}

/// Whether classifier `p` matches the series for an instrument of the
/// given kind.
pub open spec fn spec_pattern_matches(p: StockPattern, kind: InstrumentKind, s: Seq<DailyBar>) -> bool {
    match p {
        StockPattern::Hammer(_) => spec_hammer_matches(kind, s),
        StockPattern::DojiStar(_) => spec_doji_star_matches(kind, s),
        StockPattern::BullishEngulfing(_) => spec_bullish_engulfing_matches(kind, s),
        StockPattern::Piercing(_) => spec_piercing_matches(kind, s),
        StockPattern::RisingWindow(_) => spec_rising_window_matches(kind, s),
        StockPattern::Ma(mp) => spec_ma_matches(s, mp.ma as int),
        StockPattern::Bias(bp) => spec_bias_matches(s, bp.ma as int, bp.bias as int),
        StockPattern::VolumeMa(vp) => spec_volume_ma_matches(s, vp.ma as int),
    }
}

/// Display name of classifier `p`.
pub open spec fn spec_pattern_name(p: StockPattern) -> Seq<char> {
    match p {
        StockPattern::Hammer(_) => "Hammer"@,
        StockPattern::DojiStar(_) => "DojiStar"@,
        StockPattern::BullishEngulfing(_) => "BullishEngulfing"@,
        StockPattern::Piercing(_) => "Piercing"@,
        StockPattern::RisingWindow(_) => "RisingWindow"@,
        StockPattern::Ma(mp) => spec_ma_name(mp.ma as int),
        StockPattern::Bias(_) => "BIAS"@,
        StockPattern::VolumeMa(_) => "VOL"@,
    }
}

impl StockPattern {
    /// Whether this classifier matches the series for the instrument.
    pub fn is_match(&self, stock: &Instrument, prices: &[DailyBar]) -> (r: bool)
        requires
            prices@.len() >= 2,
            series_wf(prices@),
            spec_pattern_wf(*self),
        ensures
            r == spec_pattern_matches(*self, stock.kind, prices@),
    {
        match self {
            StockPattern::Hammer(p) => p.is_match(stock, prices),
            StockPattern::DojiStar(p) => p.is_match(stock, prices),
            StockPattern::BullishEngulfing(p) => p.is_match(stock, prices),
            StockPattern::Piercing(p) => p.is_match(stock, prices),
            StockPattern::RisingWindow(p) => p.is_match(stock, prices),
            StockPattern::Ma(p) => p.is_match(stock, prices),
            StockPattern::Bias(p) => p.is_match(stock, prices),
            StockPattern::VolumeMa(p) => p.is_match(stock, prices),
        }
    }

    /// Display name of this classifier.
    pub fn name(&self) -> (r: String)
        ensures
            r@ == spec_pattern_name(*self),
    {
        match self {
            StockPattern::Hammer(p) => p.name(),
            StockPattern::DojiStar(p) => p.name(),
            StockPattern::BullishEngulfing(p) => p.name(),
            StockPattern::Piercing(p) => p.name(),
            StockPattern::RisingWindow(p) => p.name(),
            StockPattern::Ma(p) => p.name(),
            StockPattern::Bias(p) => p.name(),
            StockPattern::VolumeMa(p) => p.name(),
        }
    }
}

/// The fixed candlestick registry, in evaluation order.
pub open spec fn spec_candlestick_patterns() -> Seq<StockPattern> {
    seq![
        StockPattern::Hammer(HammerPattern {  }),
        StockPattern::DojiStar(DojiStarPattern {  }),
        StockPattern::BullishEngulfing(BullishEngulfingPattern {  }),
        StockPattern::Piercing(PiercingPattern {  }),
        StockPattern::RisingWindow(RisingWindowPattern {  }),
    ]
}

/// The fixed trend registry, in evaluation order: three moving-average
/// windows and one bias configuration.
pub open spec fn spec_ma_patterns() -> Seq<StockPattern> {
    seq![
        StockPattern::Ma(MaPattern { ma: 10 }),
        StockPattern::Ma(MaPattern { ma: 20 }),
        StockPattern::Ma(MaPattern { ma: 200 }),
        StockPattern::Bias(BIASPattern { ma: 25, bias: 150 }),
    ]
}

/// The candlestick classifiers, in evaluation order.
pub fn get_candlestick_patterns() -> (r: Vec<StockPattern>)
    ensures
        r@ == spec_candlestick_patterns(),
        forall|k: int| 0 <= k < r@.len() ==> spec_pattern_wf(#[trigger] r@[k]),
{
    let mut v: Vec<StockPattern> = Vec::new();
    v.push(StockPattern::Hammer(HammerPattern {}));
    v.push(StockPattern::DojiStar(DojiStarPattern {}));
    v.push(StockPattern::BullishEngulfing(BullishEngulfingPattern {}));
    v.push(StockPattern::Piercing(PiercingPattern {}));
    v.push(StockPattern::RisingWindow(RisingWindowPattern {}));
    proof {
        assert(v@ =~= spec_candlestick_patterns());
    }
    v
}

/// The trend classifiers, in evaluation order.
pub fn get_ma_patterns() -> (r: Vec<StockPattern>)
    ensures
        r@ == spec_ma_patterns(),
        forall|k: int| 0 <= k < r@.len() ==> spec_pattern_wf(#[trigger] r@[k]),
{
    let mut v: Vec<StockPattern> = Vec::new();
    v.push(StockPattern::Ma(MaPattern { ma: 10 }));
    v.push(StockPattern::Ma(MaPattern { ma: 20 }));
    v.push(StockPattern::Ma(MaPattern { ma: 200 }));
    v.push(StockPattern::Bias(BIASPattern { ma: 25, bias: 150 }));
    proof {
        assert(v@ =~= spec_ma_patterns());
    }
    v
}

/// No-trade exclusion law: when the latest bar has no price range, no
/// candlestick classifier matches, whatever the other fields hold.
pub proof fn lemma_no_trade_excludes_candlesticks(kind: InstrumentKind, s: Seq<DailyBar>)
    requires
        s.len() >= 1,
        s.last().spec_is_no_trade(),
    ensures
        forall|k: int|
            0 <= k < spec_candlestick_patterns().len() ==> !spec_pattern_matches(
                #[trigger] spec_candlestick_patterns()[k],
                kind,
                s,
            ),
{
    assert forall|k: int| 0 <= k < spec_candlestick_patterns().len() implies !spec_pattern_matches(
        spec_candlestick_patterns()[k],
        kind,
        s,
    ) by {
        let p = spec_candlestick_patterns()[k];
        if k == 0 {
            assert(p == StockPattern::Hammer(HammerPattern {}));
        } else if k == 1 {
            assert(p == StockPattern::DojiStar(DojiStarPattern {}));
        } else if k == 2 {
            assert(p == StockPattern::BullishEngulfing(BullishEngulfingPattern {}));
        } else if k == 3 {
            assert(p == StockPattern::Piercing(PiercingPattern {}));
        } else {
            assert(p == StockPattern::RisingWindow(RisingWindowPattern {}));
        }
    }
}

/// Fund–stock threshold law: a fund's required consecutive-decline run is
/// exactly one day longer than a stock's, and an index is treated like a
/// stock.
pub proof fn lemma_fund_run_threshold()
    ensures
        spec_required_run(InstrumentKind::Fund) == spec_required_run(InstrumentKind::Stock) + 1,
        spec_required_run(InstrumentKind::Index) == spec_required_run(InstrumentKind::Stock),
{
}

/// A hammer that matches for a fund matches for a stock on the same
/// series: the hammer's only kind-dependence is the decline run, and the
/// fund's requirement is the stricter one.
pub proof fn lemma_hammer_fund_implies_stock(s: Seq<DailyBar>)
    ensures
        spec_hammer_matches(InstrumentKind::Fund, s) ==> spec_hammer_matches(
            InstrumentKind::Stock,
            s,
        ),
{
}

} // verus!
