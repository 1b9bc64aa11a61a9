use trading_bot::holiday::{holiday_decision, parse_holiday_date};

#[test]
fn test_parse_holiday_date() {
    assert_eq!(parse_holiday_date("20240101"), Some((20240101, 2024, 1, 1)));
    assert_eq!(parse_holiday_date("19991231"), Some((19991231, 1999, 12, 31)));
}

#[test]
fn test_parse_holiday_date_rejects_bad_input() {
    assert_eq!(parse_holiday_date(""), None);
    assert_eq!(parse_holiday_date("2024010"), None);
    assert_eq!(parse_holiday_date("202401011"), None);
    assert_eq!(parse_holiday_date("2024010a"), None);
    assert_eq!(parse_holiday_date("2024-101"), None);
}

#[test]
fn test_holiday_decision() {
    // Saturday and Sunday are holidays regardless of the table.
    assert!(holiday_decision(6, false).is_holiday);
    assert!(holiday_decision(7, false).is_holiday);
    // A weekday is a holiday exactly when the table lists it.
    assert!(holiday_decision(3, true).is_holiday);
    assert!(!holiday_decision(3, false).is_holiday);
    assert!(!holiday_decision(1, false).is_holiday);
}
