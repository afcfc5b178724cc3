use aegis_db::decimal::Dec;
use aegis_db::derivatives::{
    freshness_report, freshness_row, freshness_thresholds, symbol_freshness_rows, upsert_outcome,
    DerivativesUpsertSummary, FundingBucket, PriceOiRegime, UpsertOutcome,
};
use aegis_db::derivatives::{derivatives_freshness_for_symbols, SymbolLatest};
use aegis_db::timestamp::Timestamp;

fn ts(micros: i64) -> Timestamp {
    Timestamp::new(micros.div_euclid(1_000_000), (micros.rem_euclid(1_000_000) * 1_000) as u32).unwrap()
}

fn micros_of(t: Timestamp) -> i64 {
    t.secs() * 1_000_000 + (t.subsec_nanos() / 1_000) as i64
}

const MICROS_PER_MINUTE: i64 = 60_000_000;
const MICROS_PER_HOUR: i64 = 60 * MICROS_PER_MINUTE;

fn now() -> Timestamp {
    let now = chrono::Utc::now();
    Timestamp::new(now.timestamp(), now.timestamp_subsec_nanos()).unwrap()
}

#[test]
fn funding_bucket_prefers_extreme_zscore() {
    assert_eq!(
        FundingBucket::classify(Some(Dec::zero()), Some(Dec::new(21, 1))),
        FundingBucket::ExtremePositive
    );
    assert_eq!(
        FundingBucket::classify(Some(Dec::zero()), Some(Dec::new(-21, 1))),
        FundingBucket::ExtremeNegative
    );
}

#[test]
fn funding_bucket_classifies_rate_sign() {
    assert_eq!(
        FundingBucket::classify(Some(Dec::new(-1, 4)), None),
        FundingBucket::Negative
    );
    assert_eq!(
        FundingBucket::classify(Some(Dec::new(1, 4)), None),
        FundingBucket::Positive
    );
}

#[test]
fn price_oi_regime_classifies_quadrants() {
    assert_eq!(
        PriceOiRegime::classify(Some(Dec::from_int(1)), Some(Dec::from_int(1))),
        PriceOiRegime::PriceUpOiUp
    );
    assert_eq!(
        PriceOiRegime::classify(Some(Dec::from_int(1)), Some(Dec::from_int(-1))),
        PriceOiRegime::PriceUpOiDown
    );
    assert_eq!(
        PriceOiRegime::classify(Some(Dec::from_int(-1)), Some(Dec::from_int(1))),
        PriceOiRegime::PriceDownOiUp
    );
    assert_eq!(
        PriceOiRegime::classify(Some(Dec::from_int(-1)), Some(Dec::from_int(-1))),
        PriceOiRegime::PriceDownOiDown
    );
}

#[test]
fn freshness_row_detects_missing_and_stale() {
    let now = now();
    let stale_after = Timestamp::new(now.secs() - 3_600, now.subsec_nanos()).unwrap();
    let missing = freshness_row("binance", "BTCUSDT", "funding", None, None, stale_after);
    assert_eq!(missing.status, "missing");
    let stale = freshness_row(
        "binance",
        "BTCUSDT",
        "funding",
        None,
        Some((Some(Timestamp::new(stale_after.secs() - 60, stale_after.subsec_nanos()).unwrap()), 1)),
        stale_after,
    );
    assert_eq!(stale.status, "stale");
    let fresh = freshness_row("binance", "BTCUSDT", "funding", None, Some((Some(now), 1)), stale_after);
    assert_eq!(fresh.status, "fresh");
}

#[test]
fn funding_bucket_zscore_thresholds_are_inclusive() {
    assert_eq!(
        FundingBucket::classify(Some(Dec::new(-5, 4)), Some(Dec::from_int(2))),
        FundingBucket::ExtremePositive
    );
    assert_eq!(
        FundingBucket::classify(Some(Dec::new(5, 4)), Some(Dec::new(-200, 2))),
        FundingBucket::ExtremeNegative
    );
    assert_eq!(
        FundingBucket::classify(Some(Dec::new(5, 4)), Some(Dec::new(199, 2))),
        FundingBucket::Positive
    );
}

#[test]
fn funding_bucket_zero_and_missing_rate() {
    assert_eq!(FundingBucket::classify(Some(Dec::zero()), None), FundingBucket::Neutral);
    assert_eq!(FundingBucket::classify(None, None), FundingBucket::Unknown);
    assert_eq!(FundingBucket::classify(None, Some(Dec::from_int(3))), FundingBucket::ExtremePositive);
}

#[test]
fn funding_bucket_labels() {
    assert_eq!(FundingBucket::ExtremeNegative.label(), "ExtremeNegative");
    assert_eq!(FundingBucket::Neutral.label(), "Neutral");
    assert_eq!(FundingBucket::Unknown.label(), "Unknown");
}

#[test]
fn price_oi_regime_counts_flat_as_up_and_missing_as_unknown() {
    assert_eq!(PriceOiRegime::classify(Some(Dec::zero()), Some(Dec::zero())), PriceOiRegime::PriceUpOiUp);
    assert_eq!(PriceOiRegime::classify(Some(Dec::new(-1, 2)), Some(Dec::zero())), PriceOiRegime::PriceDownOiUp);
    assert_eq!(PriceOiRegime::classify(Some(Dec::from_int(1)), None), PriceOiRegime::Unknown);
    assert_eq!(PriceOiRegime::PriceUpOiDown.label(), "PriceUpOiDown");
}

#[test]
fn upsert_outcome_prefers_insert_then_update() {
    assert_eq!(upsert_outcome(true, true), UpsertOutcome::Inserted);
    assert_eq!(upsert_outcome(false, true), UpsertOutcome::Updated);
    assert_eq!(upsert_outcome(false, false), UpsertOutcome::Skipped);
}

#[test]
fn upsert_summary_counts_each_outcome_once() {
    let mut summary = DerivativesUpsertSummary::default();
    summary.record(UpsertOutcome::Inserted);
    summary.record(UpsertOutcome::Inserted);
    summary.record(UpsertOutcome::Updated);
    summary.record(UpsertOutcome::Skipped);
    assert_eq!(summary, DerivativesUpsertSummary { inserted: 2, updated: 1, skipped: 1 });
    assert_eq!(summary.inserted + summary.updated + summary.skipped, 4);
}

#[test]
fn freshness_thresholds_are_twelve_and_eight_hours_back() {
    let now = ts(100 * MICROS_PER_HOUR);
    let (funding, four_hour) = freshness_thresholds(now);
    assert_eq!(micros_of(funding), 88 * MICROS_PER_HOUR);
    assert_eq!(micros_of(four_hour), 92 * MICROS_PER_HOUR);
}

#[test]
fn freshness_report_counts_missing_and_stale_rows() {
    let now = ts(100 * MICROS_PER_HOUR);
    let (funding_after, four_hour_after) = freshness_thresholds(now);
    let rows = symbol_freshness_rows(
        "ETHUSDT",
        "4h",
        "1h",
        Some((Some(ts(99 * MICROS_PER_HOUR)), 10)),
        Some((Some(ts(90 * MICROS_PER_HOUR)), 3)),
        None,
        Some((None, 0)),
        funding_after,
        four_hour_after,
    );
    assert_eq!(rows.len(), 4);
    assert_eq!(rows[0].metric, "funding");
    assert_eq!(rows[0].period, None);
    assert_eq!(rows[0].status, "fresh");
    assert_eq!(rows[1].metric, "open_interest");
    assert_eq!(rows[1].period.as_deref(), Some("4h"));
    assert_eq!(rows[1].status, "stale");
    assert_eq!(rows[2].metric, "global-long-short");
    assert_eq!(rows[2].status, "missing");
    assert_eq!(rows[3].metric, "taker-buy-sell");
    assert_eq!(rows[3].period.as_deref(), Some("1h"));
    assert_eq!(rows[3].status, "missing");
    assert!(rows.iter().all(|r| r.exchange == "binance" && r.symbol == "ETHUSDT"));

    let report = freshness_report(rows, now);
    assert_eq!(report.generated_at, now);
    assert_eq!(report.execution_authority, "NONE");
    assert_eq!(report.missing_count, 2);
    assert_eq!(report.stale_count, 1);
    assert_eq!(report.rows.len(), 4);
}

#[test]
fn freshness_compares_to_the_nanosecond() {
    let stale_after = Timestamp::new(1_800_000_000, 500_000_700).unwrap();
    let just_before = Timestamp::new(1_800_000_000, 500_000_300).unwrap();
    let row = freshness_row("binance", "BTCUSDT", "funding", None, Some((Some(just_before), 1)), stale_after);
    assert_eq!(row.status, "stale");
    let same = freshness_row("binance", "BTCUSDT", "funding", None, Some((Some(stale_after), 1)), stale_after);
    assert_eq!(same.status, "fresh");
}

#[test]
fn freshness_for_symbols_lists_four_rows_per_symbol_in_order() {
    let now = ts(100 * MICROS_PER_HOUR);
    let latest = vec![
        SymbolLatest {
            symbol: "BTCUSDT".to_string(),
            funding: Some((Some(ts(95 * MICROS_PER_HOUR)), 5)),
            open_interest: Some((Some(ts(91 * MICROS_PER_HOUR)), 2)),
            long_short: Some((Some(ts(99 * MICROS_PER_HOUR)), 1)),
            taker: None,
        },
        SymbolLatest {
            symbol: "ETHUSDT".to_string(),
            funding: Some((Some(ts(80 * MICROS_PER_HOUR)), 9)),
            open_interest: None,
            long_short: None,
            taker: Some((Some(ts(100 * MICROS_PER_HOUR)), 3)),
        },
    ];
    let report = derivatives_freshness_for_symbols(latest, "4h", "1h", now).unwrap();
    assert_eq!(report.generated_at, now);
    assert_eq!(report.execution_authority, "NONE");
    let rows: Vec<(&str, &str, &str, i64)> = report
        .rows
        .iter()
        .map(|r| (r.symbol.as_str(), r.metric.as_str(), r.status.as_str(), r.rows))
        .collect();
    assert_eq!(
        rows,
        vec![
            ("BTCUSDT", "funding", "fresh", 5),
            ("BTCUSDT", "open_interest", "stale", 2),
            ("BTCUSDT", "global-long-short", "fresh", 1),
            ("BTCUSDT", "taker-buy-sell", "missing", 0),
            ("ETHUSDT", "funding", "stale", 9),
            ("ETHUSDT", "open_interest", "missing", 0),
            ("ETHUSDT", "global-long-short", "missing", 0),
            ("ETHUSDT", "taker-buy-sell", "fresh", 3),
        ]
    );
    assert_eq!(micros_of(report.rows[0].stale_after), 88 * MICROS_PER_HOUR);
    assert_eq!(micros_of(report.rows[1].stale_after), 92 * MICROS_PER_HOUR);
    assert_eq!(report.missing_count, 3);
    assert_eq!(report.stale_count, 2);
}

#[test]
fn freshness_for_symbols_refuses_a_time_too_early_for_its_threshold() {
    let early = Timestamp::new(-10_000_000_000_000, 0).unwrap();
    assert!(derivatives_freshness_for_symbols(Vec::new(), "4h", "1h", early).is_none());
    assert!(derivatives_freshness_for_symbols(Vec::new(), "4h", "1h", ts(0)).unwrap().rows.is_empty());
}
