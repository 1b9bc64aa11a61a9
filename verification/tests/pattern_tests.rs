use trading_bot::bar::DailyBar;
use trading_bot::instrument::{Instrument, InstrumentKind};
use trading_bot::stock_pattern::{
    BullishEngulfingPattern, DojiStarPattern, HammerPattern, MaPattern, PiercingPattern,
    RisingWindowPattern, VolumeMaPattern,
};

fn mk(date: u64, open: u64, high: u64, low: u64, close: u64, volume: Option<u64>) -> DailyBar {
    DailyBar { date, open, high, low, close, volume, amount: None }
}

fn flat(date: u64) -> DailyBar {
    mk(date, 20000, 20000, 20000, 20000, Some(1000))
}

/// A full-body declining day: opens at the previous close, closes lower.
fn down_bar(date: u64, from: u64, to: u64) -> DailyBar {
    mk(date, from, from, to, to, Some(1000))
}

fn stock(kind: InstrumentKind) -> Instrument {
    Instrument { code: "000001".to_string(), name: "demo".to_string(), kind, to_code: None }
}

/// Twenty flat low-volume days followed by `declines` full-body
/// declining days, each dropping 1.2 units.
fn base_series(declines: u64) -> Vec<DailyBar> {
    let mut series: Vec<DailyBar> = Vec::new();
    for i in 0..20u64 {
        series.push(flat(i));
    }
    let mut close = 20000u64;
    for t in 0..declines {
        series.push(down_bar(20 + t, close, close - 1200));
        close -= 1200;
    }
    series
}

#[test]
fn test_hammer_at_decline_boundary() {
    // Exactly four declining steps end in a hammer-shaped day on five
    // times the usual volume: long lower shadow, tiny body and upper
    // shadow.
    let mut series = base_series(3);
    series.push(mk(23, 14950, 15055, 13000, 15050, Some(5000)));
    let hammer = HammerPattern {};
    // A stock needs a four-day decline run: the hammer matches.
    assert!(hammer.is_match(&stock(InstrumentKind::Stock), &series));
    // An index is held to the stock threshold.
    assert!(hammer.is_match(&stock(InstrumentKind::Index), &series));
    // A fund needs one day more: the same series does not match.
    assert!(!hammer.is_match(&stock(InstrumentKind::Fund), &series));
}

#[test]
fn test_hammer_needs_volume() {
    // The same hammer day with no reported volume: no confirmation is
    // available, so the pattern cannot match.
    let mut series = base_series(3);
    series.push(mk(23, 14950, 15055, 13000, 15050, None));
    let hammer = HammerPattern {};
    assert!(!hammer.is_match(&stock(InstrumentKind::Stock), &series));
}

#[test]
fn test_doji_star_factor_depends_on_kind() {
    // A ten-thousandth body over a two-unit range: within the stock
    // factor of 0.01 but beyond the fund factor of 0.001.
    let mut series = base_series(4);
    series.push(mk(24, 15000, 15020, 13000, 15010, Some(5000)));
    let doji = DojiStarPattern {};
    assert!(doji.is_match(&stock(InstrumentKind::Stock), &series));
    assert!(!doji.is_match(&stock(InstrumentKind::Fund), &series));
}

#[test]
fn test_bullish_engulfing() {
    // The final up day opens below the previous down day's close and
    // closes above its open, with the larger body, after four declining
    // days, on five times the volume.
    let mut series = base_series(4);
    series.push(mk(24, 15100, 16600, 15000, 16500, Some(5000)));
    let engulfing = BullishEngulfingPattern {};
    assert!(engulfing.is_match(&stock(InstrumentKind::Stock), &series));
    // Without the volume surge the pattern fails: 1100 < 1.2 x 1000.
    let mut weak = base_series(4);
    weak.push(mk(24, 15100, 16600, 15000, 16500, Some(1100)));
    assert!(!engulfing.is_match(&stock(InstrumentKind::Stock), &weak));
}

#[test]
fn test_piercing() {
    // The final up day opens below the previous close at 15200, closes
    // at 16000 — above the previous middle price of 15800 and below the
    // previous open of 16400.
    let mut series = base_series(4);
    series.push(mk(24, 15100, 16050, 15050, 16000, Some(5000)));
    let piercing = PiercingPattern {};
    assert!(piercing.is_match(&stock(InstrumentKind::Stock), &series));
    // Closing below the previous middle price fails the pattern.
    let mut shallow = base_series(4);
    shallow.push(mk(24, 15100, 15750, 15050, 15700, Some(5000)));
    assert!(!piercing.is_match(&stock(InstrumentKind::Stock), &shallow));
}

#[test]
fn test_rising_window() {
    // The final up day's low of 16450 gaps clear above the previous
    // day's high of 16400.
    let mut series = base_series(4);
    series.push(mk(24, 16500, 17550, 16450, 17500, Some(5000)));
    let rising = RisingWindowPattern {};
    assert!(rising.is_match(&stock(InstrumentKind::Stock), &series));
    // A low touching the previous high is no true gap.
    let mut touching = base_series(4);
    touching.push(mk(24, 16500, 17550, 16400, 17500, Some(5000)));
    assert!(!rising.is_match(&stock(InstrumentKind::Stock), &touching));
}

#[test]
fn test_no_trade_day_matches_nothing() {
    // However favourable the rest of the series, a latest bar without a
    // price range is excluded from every candlestick pattern.
    let mut series = base_series(4);
    series.push(mk(24, 14000, 14000, 14000, 14000, Some(5000)));
    let kind = stock(InstrumentKind::Stock);
    assert!(!HammerPattern {}.is_match(&kind, &series));
    assert!(!DojiStarPattern {}.is_match(&kind, &series));
    assert!(!BullishEngulfingPattern {}.is_match(&kind, &series));
    assert!(!PiercingPattern {}.is_match(&kind, &series));
    assert!(!RisingWindowPattern {}.is_match(&kind, &series));
}

#[test]
fn test_volume_ma_compares_to_trailing_average() {
    // Twenty-four days of volume 1000: the 20-day volume average one
    // point before the latest is exactly 1000.
    let mut series = base_series(4);
    series.push(mk(24, 15000, 15500, 14500, 15200, Some(1000)));
    let vol = VolumeMaPattern { ma: 20 };
    assert!(vol.is_match(&stock(InstrumentKind::Stock), &series));
    let mut below = base_series(4);
    below.push(mk(24, 15000, 15500, 14500, 15200, Some(999)));
    assert!(!vol.is_match(&stock(InstrumentKind::Stock), &below));
}

#[test]
fn test_volume_ma_without_any_volume() {
    // No day reports volume: there is no average to confirm against.
    let mut series: Vec<DailyBar> = Vec::new();
    for i in 0..25u64 {
        series.push(mk(i, 20000, 20500, 19500, 20000, None));
    }
    let vol = VolumeMaPattern { ma: 20 };
    assert!(!vol.is_match(&stock(InstrumentKind::Stock), &series));
}

#[test]
fn test_ma_pattern_needs_rising_average() {
    // Rising closes: the latest close sits above a rising 3-period
    // average.
    let mut rising: Vec<DailyBar> = Vec::new();
    let mut c = 10000u64;
    for i in 0..6u64 {
        rising.push(mk(i, c, c + 1100, c - 100, c + 1000, Some(1000)));
        c += 1000;
    }
    let pattern = MaPattern { ma: 3 };
    assert!(pattern.is_match(&stock(InstrumentKind::Stock), &rising));
    // A flat series has a flat average, which is not rising.
    let mut level: Vec<DailyBar> = Vec::new();
    for i in 0..6u64 {
        level.push(mk(i, 20000, 20500, 19500, 20000, Some(1000)));
    }
    assert!(!pattern.is_match(&stock(InstrumentKind::Stock), &level));
}
