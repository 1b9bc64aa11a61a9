use trading_bot::analysis_model::FundsAnalysisParams;
use trading_bot::analysis_svc::{analyze, analyze_batch, analyze_funds};
use trading_bot::bar::DailyBar;
use trading_bot::instrument::{Instrument, InstrumentKind};

fn mk(date: u64, open: u64, high: u64, low: u64, close: u64, volume: Option<u64>) -> DailyBar {
    DailyBar { date, open, high, low, close, volume, amount: None }
}

fn instrument(code: &str, kind: InstrumentKind) -> Instrument {
    Instrument { code: code.to_string(), name: code.to_string(), kind, to_code: None }
}

/// Fifteen flat low-volume days, nine strictly declining days, then a
/// hammer-shaped day on five times the volume.
fn hammer_series() -> Vec<DailyBar> {
    let mut series: Vec<DailyBar> = Vec::new();
    for i in 0..15u64 {
        series.push(mk(i, 20000, 20000, 20000, 20000, Some(1000)));
    }
    let mut close = 20000u64;
    for t in 0..9u64 {
        series.push(mk(15 + t, close, close, close - 1200, close - 1200, Some(1000)));
        close -= 1200;
    }
    series.push(mk(24, 7950, 8055, 6000, 8050, Some(5000)));
    series
}

#[test]
fn test_analyze_hammer_scenario() {
    // Nine declining days then a hammer: the result lists the hammer
    // (and the deep-below-average bias that the fall produced), and the
    // levels bracket the final close.
    let series = hammer_series();
    let result = analyze(&instrument("600000", InstrumentKind::Stock), &series).unwrap();
    assert!(result.pattern.iter().any(|p| p == "Hammer"));
    assert_eq!(result.pattern, vec!["Hammer".to_string(), "BIAS".to_string()]);
    assert_eq!(result.current, 8050);
    assert!(result.support <= result.current && result.current <= result.resistance);
    assert_eq!(result.resistance, 8055);
    assert_eq!(result.support, 6000);
    assert_eq!(result.code, "600000");
}

#[test]
fn test_analyze_twice_is_identical() {
    let series = hammer_series();
    let stock = instrument("600000", InstrumentKind::Stock);
    let first = analyze(&stock, &series).unwrap();
    let second = analyze(&stock, &series).unwrap();
    assert_eq!(first.code, second.code);
    assert_eq!(first.name, second.name);
    assert_eq!(first.current, second.current);
    assert_eq!(first.support, second.support);
    assert_eq!(first.resistance, second.resistance);
    assert_eq!(first.pattern, second.pattern);
}

#[test]
fn test_analyze_short_series_is_no_result() {
    let stock = instrument("600000", InstrumentKind::Stock);
    let one = vec![mk(0, 20000, 20500, 19500, 20000, Some(1000))];
    assert!(analyze(&stock, &one).is_none());
    let none: Vec<DailyBar> = Vec::new();
    assert!(analyze(&stock, &none).is_none());
}

#[test]
fn test_analyze_no_trade_latest_day() {
    // The same favourable history, but the latest day never traded: no
    // candlestick may match, so the trend set is not consulted either.
    let mut series = hammer_series();
    series.pop();
    series.push(mk(24, 9000, 9000, 9000, 9000, Some(5000)));
    let result = analyze(&instrument("600000", InstrumentKind::Stock), &series).unwrap();
    assert!(result.pattern.is_empty());
}

#[test]
fn test_analyze_batch_keeps_focus_results() {
    let interesting = (instrument("AAA", InstrumentKind::Stock), hammer_series());
    let too_short =
        (instrument("BBB", InstrumentKind::Stock), vec![mk(0, 20000, 20500, 19500, 20000, Some(1000))]);
    let mut dull_series: Vec<DailyBar> = Vec::new();
    for i in 0..25u64 {
        dull_series.push(mk(i, 20000, 20000, 20000, 20000, Some(1000)));
    }
    let dull = (instrument("CCC", InstrumentKind::Stock), dull_series);
    let items = vec![interesting, too_short, dull];
    let results = analyze_batch(&items);
    assert_eq!(results.len(), 1);
    assert_eq!(results[0].code, "AAA");
    assert_eq!(results[0].pattern.len(), 2);
}

#[test]
fn test_analyze_funds_filters_by_code() {
    let items = vec![
        (instrument("F100", InstrumentKind::Fund), hammer_series()),
        (instrument("F200", InstrumentKind::Fund), hammer_series()),
    ];
    let all = analyze_funds(&FundsAnalysisParams { code: None }, &items);
    assert_eq!(all.len(), 2);
    let one = analyze_funds(&FundsAnalysisParams { code: Some("F200".to_string()) }, &items);
    assert_eq!(one.len(), 1);
    assert_eq!(one[0].code, "F200");
    let missing = analyze_funds(&FundsAnalysisParams { code: Some("F300".to_string()) }, &items);
    assert!(missing.is_empty());
}

#[test]
fn test_get_search_symbol() {
    let plain = instrument("600000", InstrumentKind::Stock);
    assert_eq!(plain.get_search_symbol(), "600000");
    let mut aliased = instrument("0700", InstrumentKind::Stock);
    aliased.to_code = Some("0700.HK".to_string());
    assert_eq!(aliased.get_search_symbol(), "0700.HK");
}
