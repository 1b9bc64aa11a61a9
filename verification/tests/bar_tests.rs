use trading_bot::bar::DailyBar;

fn mk(open: u64, high: u64, low: u64, close: u64) -> DailyBar {
    DailyBar { date: 1, open, high, low, close, volume: Some(1000), amount: None }
}

#[test]
fn test_candle_metrics_up_day() {
    // Open 10.000, high 12.500, low 9.000, close 12.000.
    let bar = mk(10000, 12500, 9000, 12000);
    assert_eq!(bar.get_real_body(), 2000);
    assert_eq!(bar.get_upper_shadow(), 500);
    assert_eq!(bar.get_lower_shadow(), 1000);
    assert_eq!(bar.get_middle_price_doubled(), 21500);
    assert!(bar.is_up());
    assert!(!bar.is_down());
    assert!(!bar.is_no_trade());
}

#[test]
fn test_candle_metrics_down_day() {
    let bar = mk(12000, 12500, 9000, 10000);
    assert_eq!(bar.get_real_body(), 2000);
    assert_eq!(bar.get_upper_shadow(), 500);
    assert_eq!(bar.get_lower_shadow(), 1000);
    assert!(!bar.is_up());
    assert!(bar.is_down());
}

#[test]
fn test_candle_metrics_no_trade_day() {
    let bar = mk(10000, 10000, 10000, 10000);
    assert_eq!(bar.get_real_body(), 0);
    assert_eq!(bar.get_upper_shadow(), 0);
    assert_eq!(bar.get_lower_shadow(), 0);
    assert!(bar.is_no_trade());
    assert!(!bar.is_up());
    assert!(!bar.is_down());
}
