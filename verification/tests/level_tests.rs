use trading_bot::bar::DailyBar;
use trading_bot::stock_calculate::first_resistance_support_price;

fn mk(date: u64, open: u64, high: u64, low: u64, close: u64) -> DailyBar {
    DailyBar { date, open, high, low, close, volume: Some(1000), amount: None }
}

/// A bar whose close is `c`, with a thousandth of range on each side.
fn around(date: u64, c: u64) -> DailyBar {
    mk(date, c, c + 1000, c - 1000, c)
}

#[test]
fn test_levels_from_smoothed_extrema() {
    // The 5-period moving average of these closes runs
    // 20000 x5, 25000, 22000, 19000, 16000, 13000, 10000, 13000:
    // one strict peak (25000) above the final close of 20000 and one
    // strict trough (10000) below it, with no qualifying refinement.
    let closes: Vec<u64> =
        vec![20000, 20000, 20000, 20000, 20000, 45000, 5000, 5000, 5000, 5000, 30000];
    let mut series: Vec<DailyBar> = Vec::new();
    for (i, c) in closes.iter().enumerate() {
        series.push(around(i as u64, *c));
    }
    series.push(mk(11, 19500, 21000, 19000, 20000));
    let (resistance, support) = first_resistance_support_price(&series);
    assert_eq!(resistance, 25000);
    assert_eq!(support, 10000);
    // Level ordering: resistance >= close >= support.
    assert!(resistance >= 20000 && 20000 >= support);
}

#[test]
fn test_levels_refined_to_traded_prices() {
    // Two smoothed peaks above the final close of 26000 and two troughs
    // below it. The reduction keeps the smaller peak and the larger
    // trough, then pulls each level back to the pivot day's raw low and
    // raw high, which lie on the correct side of the close.
    let closes: Vec<u64> = vec![
        39000, 28000, 28000, 12000, 37000, 23000, 31000, 12000, 35000, 24000, 14000, 37000, 26000,
    ];
    let mut series: Vec<DailyBar> = Vec::new();
    for (i, c) in closes.iter().enumerate() {
        series.push(around(i as u64, *c));
    }
    let (resistance, support) = first_resistance_support_price(&series);
    // The winning resistance pivot is the day that closed at 31000; its
    // raw low of 30000 is still above the latest close and wins.
    assert_eq!(resistance, 30000);
    // The winning support pivot is the day that closed at 23000; its raw
    // high of 24000 is still below the latest close and wins.
    assert_eq!(support, 24000);
    assert!(resistance >= 26000 && 26000 >= support);
}

#[test]
fn test_levels_default_to_latest_range() {
    // A flat series has no smoothed extrema: the levels fall back to the
    // latest day's raw high and low.
    let mut series: Vec<DailyBar> = Vec::new();
    for i in 0..8u64 {
        series.push(mk(i, 20000, 20500, 19500, 20000));
    }
    let (resistance, support) = first_resistance_support_price(&series);
    assert_eq!(resistance, 20500);
    assert_eq!(support, 19500);
}
