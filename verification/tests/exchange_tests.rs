use trading_bot::exchange::{market_status, Exchange, MarketTime};

#[test]
fn test_exchange_from_str() {
    assert_eq!(Exchange::from_str("SH").unwrap(), Exchange::SH);
    assert_eq!(Exchange::from_str("sz").unwrap(), Exchange::SZ);
    assert_eq!(Exchange::from_str("Hk").unwrap(), Exchange::HK);
    assert_eq!(Exchange::from_str("NASDAQ").unwrap(), Exchange::NASDAQ);
    assert_eq!(Exchange::from_str("nasdaq").unwrap(), Exchange::NASDAQ);
    assert!(Exchange::from_str("XX").is_err());
    assert!(Exchange::from_str("").is_err());
    assert!(Exchange::from_str("NASDAQX").is_err());
}

#[test]
fn test_exchange_codes() {
    assert_eq!(Exchange::SH.as_code(), "SH");
    assert_eq!(Exchange::SZ.as_code(), "SZ");
    assert_eq!(Exchange::HK.as_code(), "HK");
    assert_eq!(Exchange::NASDAQ.as_code(), "NASDAQ");
}

#[test]
fn test_exchange_time_zones() {
    assert_eq!(Exchange::SH.time_zone_name(), "Asia/Chongqing");
    assert_eq!(Exchange::SZ.time_zone_name(), "Asia/Chongqing");
    assert_eq!(Exchange::HK.time_zone_name(), "Asia/Hong_Kong");
    assert_eq!(Exchange::NASDAQ.time_zone_name(), "America/New_York");
}

#[test]
fn test_market_status() {
    // Morning and afternoon sessions, in seconds of the day:
    // 09:30-11:30 and 13:00-15:00.
    let sessions = vec![
        MarketTime { start_time: 34200, end_time: 41400 },
        MarketTime { start_time: 46800, end_time: 54000 },
    ];
    assert_eq!(market_status(&sessions, 36000), "MarketTrading");
    assert_eq!(market_status(&sessions, 50000), "MarketTrading");
    assert_eq!(market_status(&sessions, 34200), "MarketTrading");
    assert_eq!(market_status(&sessions, 54000), "MarketTrading");
    // Before the open, in the lunch break, after the close.
    assert_eq!(market_status(&sessions, 30000), "MarketClosed");
    assert_eq!(market_status(&sessions, 43000), "MarketClosed");
    assert_eq!(market_status(&sessions, 60000), "MarketClosed");
    // An exchange without a session table counts as always trading.
    let none: Vec<MarketTime> = Vec::new();
    assert_eq!(market_status(&none, 0), "MarketTrading");
}
