use trading_bot::bar::DailyBar;
use trading_bot::stock_calculate::{
    down_at_least, find_first_max, find_first_min, ma, max, mean, min,
};

fn mk(date: u64, open: u64, high: u64, low: u64, close: u64, volume: u64) -> DailyBar {
    DailyBar { date, open, high, low, close, volume: Some(volume), amount: None }
}

/// A full-body declining day: opens at the previous close, closes lower.
fn down_bar(date: u64, from: u64, to: u64) -> DailyBar {
    mk(date, from, from, to, to, 1000)
}

#[test]
fn test_ma_boundary_flat_run() {
    let col: Vec<u64> = vec![10000, 20000, 30000, 40000, 50000, 60000];
    let out = ma(&col, 3);
    // Head boundary: the first three outputs are all the mean of the
    // first three inputs, not an expanding mean.
    assert_eq!(out[0], 20000);
    assert_eq!(out[1], 20000);
    assert_eq!(out[2], 20000);
    // Trailing windows afterwards.
    assert_eq!(out[3], 30000);
    assert_eq!(out[4], 40000);
    assert_eq!(out[5], 50000);
}

#[test]
fn test_ma_rounds_half_up() {
    // mean(3, 4) = 3.5 thousandths rounds up to 4.
    let col: Vec<u64> = vec![3, 4];
    assert_eq!(ma(&col, 2), vec![4, 4]);
}

#[test]
fn test_down_at_least_counts_backward() {
    let series = vec![
        down_bar(1, 20000, 19000),
        down_bar(2, 19000, 18000),
        down_bar(3, 18000, 17000),
        down_bar(4, 17000, 16000),
    ];
    // Three consecutive declining steps.
    assert!(down_at_least(&series, 1));
    assert!(down_at_least(&series, 2));
    assert!(down_at_least(&series, 3));
    assert!(!down_at_least(&series, 4));
}

#[test]
fn test_down_at_least_stops_at_first_flat_day() {
    let flat = mk(1, 20000, 20000, 20000, 20000, 1000);
    let series = vec![
        flat.clone(),
        flat.clone(),
        down_bar(3, 20000, 19000),
        down_bar(4, 19000, 18000),
    ];
    assert!(down_at_least(&series, 2));
    assert!(!down_at_least(&series, 3));
}

#[test]
fn test_down_at_least_tolerates_single_signal() {
    // Day 2 declines only by close (its middle price rises); the run
    // still counts it, because either signal suffices.
    let a = mk(1, 20000, 20000, 19000, 19000, 1000);
    let b = mk(2, 18000, 21000, 18000, 18500, 1000);
    assert!(down_at_least(&vec![a, b], 1));
}

#[test]
fn test_down_at_least_short_series() {
    let one = vec![mk(1, 20000, 20000, 20000, 20000, 1000)];
    assert!(!down_at_least(&one, 1));
    let none: Vec<DailyBar> = Vec::new();
    assert!(!down_at_least(&none, 1));
}

#[test]
fn test_max_min_mean_over_recent_bars() {
    let series = vec![
        mk(1, 10000, 11000, 9000, 10500, 1000),
        mk(2, 10500, 12000, 10000, 11500, 1000),
        mk(3, 11500, 12500, 9500, 10000, 1000),
    ];
    assert_eq!(max(&series, 2), 11500);
    assert_eq!(min(&series, 2), 9500);
    assert_eq!(mean(&series, 2), 10750);
    // A window longer than the series is clamped: mean of all three
    // closes, 32000 / 3, rounded half up.
    assert_eq!(mean(&series, 5), 10667);
    assert_eq!(max(&series, 0), 10000);
    assert_eq!(min(&series, 0), 9500);
}

#[test]
fn test_find_first_max_and_min() {
    let col: Vec<u64> = vec![5, 9, 3, 8, 7, 6];
    assert_eq!(find_first_max(&col), 3);
    assert_eq!(find_first_min(&col), 2);
    let single: Vec<u64> = vec![42];
    assert_eq!(find_first_max(&single), 0);
    assert_eq!(find_first_min(&single), 0);
}
