use trading_terminal::chart::{
    BarParseError, CandleSeries, FoldOutcome, convert_bar_update_to_bar, lookback_days,
};
use trading_terminal::stream::BarUpdate;
use trading_terminal::timeframe::align_timestamp_to_timeframe;

fn bar(symbol: &str, ts: &str, o: &str, h: &str, l: &str, c: &str, v: &str) -> BarUpdate {
    BarUpdate {
        symbol: symbol.to_string(),
        timestamp: ts.to_string(),
        open: o.to_string(),
        high: h.to_string(),
        low: l.to_string(),
        close: c.to_string(),
        volume: v.to_string(),
        trade_count: None,
        vwap: None,
    }
}

#[test]
fn first_tick_seeds_the_series() {
    let mut series = CandleSeries::new("1Min".to_string());
    let outcome = series.fold(&bar("AAPL", "2024-01-01T10:00:12Z", "10", "11", "9", "10.5", "100"));
    assert_eq!(outcome, FoldOutcome::Appended);
    assert_eq!(series.candles.len(), 1);
    let candle = series.candles[0];
    assert_eq!(candle.timestamp, 1704103212);
    assert_eq!(candle.open, 100000);
    assert_eq!(candle.high, 110000);
    assert_eq!(candle.low, 90000);
    assert_eq!(candle.close, 105000);
    assert_eq!(candle.volume, 100);
}

#[test]
fn same_bucket_tick_merges() {
    let mut series = CandleSeries::new("1Min".to_string());
    series.fold(&bar("AAPL", "2024-01-01T10:00:12Z", "10", "11", "9", "10.5", "100"));
    let outcome = series.fold(&bar(
        "AAPL",
        "2024-01-01T10:00:47Z",
        "10.5",
        "12",
        "9.5",
        "11",
        "50",
    ));
    assert_eq!(outcome, FoldOutcome::Merged);
    assert_eq!(series.candles.len(), 1);
    let candle = series.candles[0];
    assert_eq!(candle.open, 100000, "open keeps the first tick's value");
    assert_eq!(candle.high, 120000);
    assert_eq!(candle.low, 90000);
    assert_eq!(candle.close, 110000);
    assert_eq!(candle.volume, 150);
    assert_eq!(candle.timestamp, 1704103247, "timestamp follows the latest tick");
}

#[test]
fn next_bucket_tick_appends() {
    let mut series = CandleSeries::new("1Min".to_string());
    series.fold(&bar("AAPL", "2024-01-01T10:00:12Z", "10", "11", "9", "10.5", "100"));
    series.fold(&bar("AAPL", "2024-01-01T10:00:47Z", "10.5", "12", "9.5", "11", "50"));
    let outcome = series.fold(&bar(
        "AAPL",
        "2024-01-01T10:01:05Z",
        "11",
        "11.2",
        "10.9",
        "11.1",
        "30",
    ));
    assert_eq!(outcome, FoldOutcome::Appended);
    assert_eq!(series.candles.len(), 2);
    assert_eq!(series.candles[1].open, 110000);
}

#[test]
fn unparseable_volume_drops_the_tick() {
    let mut series = CandleSeries::new("1Min".to_string());
    series.fold(&bar("AAPL", "2024-01-01T10:00:12Z", "10", "11", "9", "10.5", "100"));
    let before = series.candles.clone();
    let outcome = series.fold(&bar("AAPL", "2024-01-01T10:00:30Z", "10", "11", "9", "10.5", "abc"));
    assert_eq!(outcome, FoldOutcome::ParseFailed(BarParseError::Volume));
    assert_eq!(series.candles.len(), before.len());
    assert_eq!(series.candles[0], before[0]);
}

#[test]
fn unparseable_timestamp_drops_the_tick() {
    let mut series = CandleSeries::new("1Min".to_string());
    let outcome = series.fold(&bar("AAPL", "yesterday", "10", "11", "9", "10.5", "100"));
    assert_eq!(outcome, FoldOutcome::ParseFailed(BarParseError::Timestamp));
    assert_eq!(series.candles.len(), 0);
}

#[test]
fn stale_tick_is_dropped_even_repeatedly() {
    let mut series = CandleSeries::new("1Min".to_string());
    series.fold(&bar("AAPL", "2024-01-01T10:01:05Z", "11", "11.2", "10.9", "11.1", "30"));
    let before = series.candles[0];
    for _ in 0..3 {
        let outcome = series.fold(&bar(
            "AAPL",
            "2024-01-01T09:59:59Z",
            "10",
            "11",
            "9",
            "10.5",
            "100",
        ));
        assert_eq!(outcome, FoldOutcome::DroppedStale);
        assert_eq!(series.candles.len(), 1);
        assert_eq!(series.candles[0], before);
    }
}

#[test]
fn extrema_do_not_depend_on_arrival_order() {
    let t1 = bar("AAPL", "2024-01-01T10:00:12Z", "10", "11", "9", "10.5", "100");
    let t2 = bar("AAPL", "2024-01-01T10:00:47Z", "10.5", "12", "9.5", "11", "50");
    let mut a = CandleSeries::new("1Min".to_string());
    a.fold(&t1);
    a.fold(&t2);
    let mut b = CandleSeries::new("1Min".to_string());
    b.fold(&t2);
    b.fold(&t1);
    assert_eq!(a.candles[0].high, b.candles[0].high);
    assert_eq!(a.candles[0].low, b.candles[0].low);
    assert_eq!(a.candles[0].high, 120000);
    assert_eq!(a.candles[0].low, 90000);
}

#[test]
fn volume_accumulates_as_a_plain_sum() {
    let mut one_at_a_time = CandleSeries::new("1Min".to_string());
    one_at_a_time.fold(&bar("AAPL", "2024-01-01T10:00:01Z", "10", "11", "9", "10.5", "100"));
    one_at_a_time.fold(&bar("AAPL", "2024-01-01T10:00:02Z", "10", "11", "9", "10.5", "40"));
    one_at_a_time.fold(&bar("AAPL", "2024-01-01T10:00:03Z", "10", "11", "9", "10.5", "60"));
    let mut pre_summed = CandleSeries::new("1Min".to_string());
    pre_summed.fold(&bar("AAPL", "2024-01-01T10:00:01Z", "10", "11", "9", "10.5", "100"));
    pre_summed.fold(&bar("AAPL", "2024-01-01T10:00:03Z", "10", "11", "9", "10.5", "100"));
    assert_eq!(one_at_a_time.candles[0].volume, 200);
    assert_eq!(one_at_a_time.candles[0].volume, pre_summed.candles[0].volume);
}

#[test]
fn volume_saturates_instead_of_overflowing() {
    let mut series = CandleSeries::new("1Min".to_string());
    let big = "9999999999999999999";
    series.fold(&bar("AAPL", "2024-01-01T10:00:01Z", "10", "11", "9", "10.5", big));
    series.fold(&bar("AAPL", "2024-01-01T10:00:02Z", "10", "11", "9", "10.5", big));
    assert_eq!(series.candles[0].volume, u64::MAX);
}

#[test]
fn trade_counts_sum_when_both_present() {
    let mut series = CandleSeries::new("1Min".to_string());
    let mut t1 = bar("AAPL", "2024-01-01T10:00:01Z", "10", "11", "9", "10.5", "100");
    t1.trade_count = Some(7);
    let mut t2 = bar("AAPL", "2024-01-01T10:00:02Z", "10", "11", "9", "10.5", "50");
    t2.trade_count = Some(5);
    series.fold(&t1);
    series.fold(&t2);
    assert_eq!(series.candles[0].trade_count, Some(12));

    let mut other = CandleSeries::new("1Min".to_string());
    other.fold(&t1);
    let mut t3 = bar("AAPL", "2024-01-01T10:00:03Z", "10", "11", "9", "10.5", "50");
    t3.trade_count = None;
    other.fold(&t3);
    assert_eq!(other.candles[0].trade_count, Some(7), "a missing count keeps the accumulator");
}

#[test]
fn unknown_timeframe_merges_only_identical_timestamps() {
    let mut series = CandleSeries::new("7Min".to_string());
    series.fold(&bar("AAPL", "2024-01-01T10:00:12Z", "10", "11", "9", "10.5", "100"));
    let outcome = series.fold(&bar("AAPL", "2024-01-01T10:00:12Z", "10", "12", "9", "11", "50"));
    assert_eq!(outcome, FoldOutcome::Merged);
    let outcome = series.fold(&bar("AAPL", "2024-01-01T10:00:13Z", "10", "12", "9", "11", "50"));
    assert_eq!(outcome, FoldOutcome::Appended);
    assert_eq!(series.candles.len(), 2);
}

#[test]
fn convert_parses_all_fields() {
    let mut b = bar("AAPL", "2024-01-01T10:00:12Z", "10", "11.5", "-0.25", "10.5", "100");
    b.trade_count = Some(3);
    b.vwap = Some("10.1234".to_string());
    let c = convert_bar_update_to_bar(&b).unwrap();
    assert_eq!(c.timestamp, 1704103212);
    assert_eq!(c.open, 100000);
    assert_eq!(c.high, 115000);
    assert_eq!(c.low, -2500);
    assert_eq!(c.close, 105000);
    assert_eq!(c.volume, 100);
    assert_eq!(c.trade_count, Some(3));
    assert_eq!(c.vwap, Some(101234));
}

#[test]
fn convert_names_the_first_bad_field() {
    let b = bar("AAPL", "2024-01-01T10:00:12Z", "x", "y", "9", "10.5", "100");
    assert_eq!(convert_bar_update_to_bar(&b), Err(BarParseError::Open));
    let b = bar("AAPL", "2024-01-01T10:00:12Z", "10", "y", "9", "10.5", "100");
    assert_eq!(convert_bar_update_to_bar(&b), Err(BarParseError::High));
    let b = bar("AAPL", "2024-01-01T10:00:12Z", "10", "11", "z", "10.5", "100");
    assert_eq!(convert_bar_update_to_bar(&b), Err(BarParseError::Low));
    let b = bar("AAPL", "2024-01-01T10:00:12Z", "10", "11", "9", "", "100");
    assert_eq!(convert_bar_update_to_bar(&b), Err(BarParseError::Close));
}

#[test]
fn unparseable_vwap_only_unsets_vwap() {
    let mut b = bar("AAPL", "2024-01-01T10:00:12Z", "10", "11", "9", "10.5", "100");
    b.vwap = Some("n/a".to_string());
    let c = convert_bar_update_to_bar(&b).unwrap();
    assert_eq!(c.vwap, None);
    assert_eq!(c.volume, 100);
}

#[test]
fn minute_and_hour_alignment_truncate() {
    // 2024-01-01T10:07:42Z
    let t = 1704103662;
    assert_eq!(align_timestamp_to_timeframe(t, "1Min"), 1704103620);
    assert_eq!(align_timestamp_to_timeframe(t, "5Min"), 1704103500);
    assert_eq!(align_timestamp_to_timeframe(t, "15Min"), 1704103200);
    assert_eq!(align_timestamp_to_timeframe(t, "1Hour"), 1704103200);
    assert_eq!(align_timestamp_to_timeframe(t, "1Day"), 1704067200);
    assert_eq!(align_timestamp_to_timeframe(t, "other"), t);
}

#[test]
fn week_alignment_lands_on_monday() {
    // 2024-01-03T15:30:00Z, a Wednesday; its Monday is 2024-01-01T00:00:00Z.
    let t = 1704295800;
    assert_eq!(align_timestamp_to_timeframe(t, "1Week"), 1704067200);
    // A Monday aligns to its own midnight.
    assert_eq!(align_timestamp_to_timeframe(1704067200 + 3600, "1Week"), 1704067200);
}

#[test]
fn month_alignment_lands_on_day_one() {
    // 2024-02-15T12:00:00Z -> 2024-02-01T00:00:00Z.
    let t = 1707998400;
    assert_eq!(align_timestamp_to_timeframe(t, "1Month"), 1706745600);
    // Across a year boundary: 2023-12-31T23:59:59Z -> 2023-12-01T00:00:00Z.
    assert_eq!(align_timestamp_to_timeframe(1704067199, "1Month"), 1701388800);
}

#[test]
fn lookback_days_per_timeframe() {
    assert_eq!(lookback_days("1Min", 100), 3);
    assert_eq!(lookback_days("1Min", 780), 4);
    assert_eq!(lookback_days("5Min", 100), 3);
    assert_eq!(lookback_days("15Min", 100), 5);
    assert_eq!(lookback_days("1Hour", 100), 21);
    assert_eq!(lookback_days("1Day", 100), 150);
    assert_eq!(lookback_days("1Week", 10), 84);
    assert_eq!(lookback_days("1Month", 5), 210);
    assert_eq!(lookback_days("2Hour", 100), 150);
}

#[test]
fn volume_keeps_accumulating_into_an_open_bucket() {
    let mut one_at_a_time = CandleSeries::new("1Min".to_string());
    one_at_a_time.fold(&bar("AAPL", "2024-01-01T10:00:00Z", "10", "11", "9", "10.5", "30"));
    one_at_a_time.fold(&bar("AAPL", "2024-01-01T10:00:01Z", "10", "11", "9", "10.5", "100"));
    one_at_a_time.fold(&bar("AAPL", "2024-01-01T10:00:02Z", "10", "11", "9", "10.5", "40"));
    one_at_a_time.fold(&bar("AAPL", "2024-01-01T10:00:03Z", "10", "11", "9", "10.5", "60"));
    let mut pre_summed = CandleSeries::new("1Min".to_string());
    pre_summed.fold(&bar("AAPL", "2024-01-01T10:00:00Z", "10", "11", "9", "10.5", "30"));
    pre_summed.fold(&bar("AAPL", "2024-01-01T10:00:01Z", "10", "11", "9", "10.5", "100"));
    pre_summed.fold(&bar("AAPL", "2024-01-01T10:00:03Z", "10", "11", "9", "10.5", "100"));
    assert_eq!(one_at_a_time.candles.len(), 1);
    assert_eq!(one_at_a_time.candles[0].volume, 230);
    assert_eq!(one_at_a_time.candles[0].volume, pre_summed.candles[0].volume);
}

#[test]
fn each_open_comes_from_the_first_tick_of_its_bucket() {
    let mut series = CandleSeries::new("1Min".to_string());
    series.fold(&bar("AAPL", "2024-01-01T10:00:05Z", "10", "11", "9", "10.5", "10"));
    series.fold(&bar("AAPL", "2024-01-01T10:00:40Z", "10.7", "12", "9", "11", "10"));
    series.fold(&bar("AAPL", "2024-01-01T10:01:02Z", "11.2", "11.5", "11", "11.3", "10"));
    series.fold(&bar("AAPL", "2024-01-01T10:01:55Z", "11.4", "11.6", "11", "11.5", "10"));
    assert_eq!(series.candles.len(), 2);
    assert_eq!(series.candles[0].open, 100000, "first tick of the first bucket");
    assert_eq!(series.candles[1].open, 112000, "first tick of the second bucket");
}
