use trading_bot::stock_calculate::ma;

#[test]
fn test_polars() {
    // Close column of four daily records, in thousandths:
    // 16.86, 15.17, 16.69, 16.40.
    let closes: Vec<u64> = vec![16860, 15170, 16690, 16400];
    let smoothed = ma(&closes, 2);
    // The first two outputs share the mean of the first two closes; the
    // rest are trailing two-day means, rounded half up to a thousandth.
    assert_eq!(smoothed, vec![16015, 16015, 15930, 16545]);
}
