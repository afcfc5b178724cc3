use aegis_db::attribution::{
    attribution_coverage_warnings, build_attribution_report, classify_attribution,
    coverage_summary, decimal_abs_diff, group_by_key, latest_sample, summarize_group,
    trade_context_from_row, ExecutionSafetyCounts, RsV1DerivativesTradeContext,
    RsV1DerivativesTradeRow, TradeMetrics, PERIOD_SPLIT_SECS,
};
use aegis_db::decimal::Dec;
use aegis_db::derivatives::{FundingBucket, PriceOiRegime};
use aegis_db::timestamp::Timestamp;
use uuid::Uuid;

fn ts(micros: i64) -> Timestamp {
    Timestamp::new(micros.div_euclid(1_000_000), (micros.rem_euclid(1_000_000) * 1_000) as u32).unwrap()
}

fn micros_of(t: Timestamp) -> i64 {
    t.secs() * 1_000_000 + (t.subsec_nanos() / 1_000) as i64
}

const OI_WARNING: &str = "oi_context_missing_for_rs_v1_trades_public_retention_recent_or_forward_only";
const POSITIONING_WARNING: &str =
    "positioning_context_missing_for_rs_v1_trades_public_retention_recent_or_forward_only";

fn row(index: i32, symbol: &str, entry_micros: i64, pnl: Dec) -> RsV1DerivativesTradeRow {
    RsV1DerivativesTradeRow {
        run_id: Uuid::nil(),
        trade_id: Uuid::new_v4(),
        trade_index: index,
        symbol: symbol.to_string(),
        entry_time: ts(entry_micros),
        net_pnl_pct: pnl,
        funding_rate: None,
        funding_zscore: None,
        open_interest: None,
        oi_24h_change_pct: None,
        oi_72h_change_pct: None,
        price_24h_change_pct: None,
        long_short_ratio: None,
        buy_sell_ratio: None,
    }
}

fn metrics(winner: bool, pnl: Dec, funding: Option<Dec>, oi: Option<Dec>) -> TradeMetrics {
    TradeMetrics {
        winner,
        net_pnl_pct: pnl,
        funding_rate: funding,
        funding_zscore: None,
        oi_24h_change_pct: oi,
    }
}

fn safety() -> ExecutionSafetyCounts {
    ExecutionSafetyCounts {
        orders: 1,
        paper_positions: 2,
        paper_fills: 3,
        exchange_testnet_orders: 4,
        exchange_testnet_order_lifecycle_events: 5,
        testnet_shadow_promotions: 6,
        research_candidates: 7,
    }
}

#[test]
fn trade_context_classifies_the_row() {
    let mut r = row(1, "BTCUSDT", 0, Dec::new(15, 1));
    r.funding_rate = Some(Dec::new(1, 4));
    r.funding_zscore = Some(Dec::new(25, 1));
    r.price_24h_change_pct = Some(Dec::from_int(-3));
    r.oi_24h_change_pct = Some(Dec::from_int(2));
    let c = trade_context_from_row(r);
    assert!(c.winner);
    assert_eq!(c.funding_bucket, FundingBucket::ExtremePositive);
    assert_eq!(c.price_oi_regime, PriceOiRegime::PriceDownOiUp);
    let flat = trade_context_from_row(row(2, "BTCUSDT", 0, Dec::zero()));
    assert!(!flat.winner);
    assert_eq!(flat.funding_bucket, FundingBucket::Unknown);
    assert_eq!(flat.price_oi_regime, PriceOiRegime::Unknown);
}

#[test]
fn coverage_warnings_for_missing_context() {
    assert_eq!(attribution_coverage_warnings(3, 0, 0), vec![OI_WARNING, POSITIONING_WARNING]);
    assert_eq!(attribution_coverage_warnings(3, 1, 0), vec![POSITIONING_WARNING]);
    assert_eq!(attribution_coverage_warnings(3, 0, 2), vec![OI_WARNING]);
    assert!(attribution_coverage_warnings(0, 0, 0).is_empty());
    assert!(attribution_coverage_warnings(3, 1, 1).is_empty());
}

#[test]
fn coverage_counts_each_kind_of_context() {
    let mut a = row(1, "BTCUSDT", 0, Dec::from_int(1));
    a.funding_rate = Some(Dec::new(1, 4));
    a.open_interest = Some(Dec::from_int(10));
    let mut b = row(2, "BTCUSDT", 0, Dec::from_int(-1));
    b.funding_rate = Some(Dec::new(2, 4));
    b.funding_zscore = Some(Dec::zero());
    let trades = vec![trade_context_from_row(a), trade_context_from_row(b)];
    let latest = Some(ts(42));
    let c = coverage_summary(&trades, latest, None, None);
    assert_eq!(c.total_trades, 2);
    assert_eq!(c.trades_with_funding_context, 2);
    assert_eq!(c.trades_with_funding_zscore, 1);
    assert_eq!(c.trades_with_oi_context, 1);
    assert_eq!(c.trades_with_positioning_context, 0);
    assert_eq!(c.latest_funding_timestamp, latest);
    assert_eq!(c.warnings, vec![POSITIONING_WARNING]);
}

#[test]
fn group_statistics_of_winners_and_losers() {
    let ms = vec![
        metrics(true, Dec::from_int(3), Some(Dec::new(1, 4)), None),
        metrics(false, Dec::from_int(-1), Some(Dec::new(3, 4)), Some(Dec::from_int(2))),
        metrics(true, Dec::from_int(1), None, None),
        metrics(true, Dec::from_int(5), None, None),
    ];
    let g = summarize_group("all", &ms).unwrap();
    assert_eq!(g.group, "all");
    assert_eq!(g.trades, 4);
    assert_eq!(g.winners, 3);
    assert_eq!(g.losers, 1);
    assert_eq!(g.win_rate_pct, Some(Dec::from_int(75)));
    assert_eq!(g.avg_net_pnl_pct, Some(Dec::from_int(2)));
    assert_eq!(g.median_net_pnl_pct, Some(Dec::from_int(2)));
    assert_eq!(g.funding_mean, Some(Dec::new(2, 4)));
    assert_eq!(g.funding_median, Some(Dec::new(2, 4)));
    assert_eq!(g.funding_zscore_mean, None);
    assert_eq!(g.oi_24h_change_median, Some(Dec::from_int(2)));
    let empty = summarize_group("none", &Vec::new()).unwrap();
    assert_eq!(empty.trades, 0);
    assert_eq!(empty.win_rate_pct, None);
    assert_eq!(empty.avg_net_pnl_pct, None);
}

#[test]
fn groups_are_keyed_and_ordered() {
    let keys = vec!["b".to_string(), "a".to_string(), "b".to_string()];
    let ms = vec![
        metrics(true, Dec::from_int(2), None, None),
        metrics(false, Dec::from_int(-2), None, None),
        metrics(false, Dec::from_int(-4), None, None),
    ];
    let groups = group_by_key(&keys, &ms).unwrap();
    assert_eq!(groups.len(), 2);
    assert_eq!(groups[0].group, "a");
    assert_eq!(groups[0].trades, 1);
    assert_eq!(groups[1].group, "b");
    assert_eq!(groups[1].trades, 2);
    assert_eq!(groups[1].winners, 1);
    assert_eq!(groups[1].avg_net_pnl_pct, Some(Dec::from_int(-1)));
}

#[test]
fn abs_diff_needs_both_values() {
    assert_eq!(decimal_abs_diff(Some(Dec::from_int(1)), Some(Dec::from_int(4))).unwrap(), Some(Dec::from_int(3)));
    assert_eq!(decimal_abs_diff(Some(Dec::new(-5, 1)), Some(Dec::new(5, 1))).unwrap(), Some(Dec::from_int(1)));
    assert_eq!(decimal_abs_diff(None, Some(Dec::from_int(4))).unwrap(), None);
}

#[test]
fn classification_follows_coverage_and_separation() {
    let mut coverage = coverage_summary(&Vec::new(), None, None, None);
    let winners = vec![metrics(true, Dec::from_int(1), Some(Dec::new(1, 4)), Some(Dec::from_int(1)))];
    let losers = vec![metrics(false, Dec::from_int(-1), Some(Dec::new(1, 4)), Some(Dec::new(12, 1)))];
    assert_eq!(classify_attribution(&coverage, &winners, &losers).unwrap(), "CONNECTOR_BLOCKED");
    coverage.total_trades = 2;
    coverage.trades_with_funding_context = 2;
    assert_eq!(
        classify_attribution(&coverage, &winners, &losers).unwrap(),
        "FUNDING_ONLY_HISTORICAL_AVAILABLE"
    );
    coverage.trades_with_oi_context = 2;
    assert_eq!(classify_attribution(&coverage, &winners, &losers).unwrap(), "DATA_LAYER_READY_ATTRIBUTION_WEAK");
    let far_losers = vec![metrics(false, Dec::from_int(-1), Some(Dec::new(1, 4)), Some(Dec::new(15, 1)))];
    assert_eq!(
        classify_attribution(&coverage, &winners, &far_losers).unwrap(),
        "DATA_LAYER_READY_ATTRIBUTION_PROMISING"
    );
    let funding_losers = vec![metrics(false, Dec::from_int(-1), Some(Dec::new(35, 6)), Some(Dec::from_int(1)))];
    assert_eq!(
        classify_attribution(&coverage, &winners, &funding_losers).unwrap(),
        "DATA_LAYER_READY_ATTRIBUTION_PROMISING"
    );
}

#[test]
fn latest_sample_keeps_the_last_twenty_newest_first() {
    let trades: Vec<RsV1DerivativesTradeContext> =
        (0..25).map(|i| trade_context_from_row(row(i, "BTCUSDT", 0, Dec::zero()))).collect();
    let sample = latest_sample(trades);
    assert_eq!(sample.len(), 20);
    assert_eq!(sample[0].trade_index, 24);
    assert_eq!(sample[19].trade_index, 5);
    let few: Vec<RsV1DerivativesTradeContext> =
        (0..3).map(|i| trade_context_from_row(row(i, "BTCUSDT", 0, Dec::zero()))).collect();
    let sample = latest_sample(few);
    assert_eq!(sample.iter().map(|t| t.trade_index).collect::<Vec<_>>(), vec![2, 1, 0]);
}

#[test]
fn attribution_report_groups_and_classifies() {
    let mut a = row(0, "ETHUSDT", PERIOD_SPLIT_SECS * 1_000_000 - 1, Dec::from_int(2));
    a.funding_rate = Some(Dec::new(1, 4));
    a.open_interest = Some(Dec::from_int(100));
    a.oi_24h_change_pct = Some(Dec::from_int(1));
    a.price_24h_change_pct = Some(Dec::from_int(1));
    let mut b = row(1, "BTCUSDT", PERIOD_SPLIT_SECS * 1_000_000, Dec::from_int(-2));
    b.funding_rate = Some(Dec::new(-1, 4));
    b.open_interest = Some(Dec::from_int(100));
    b.oi_24h_change_pct = Some(Dec::from_int(-1));
    b.price_24h_change_pct = Some(Dec::from_int(1));
    b.long_short_ratio = Some(Dec::from_int(1));
    let trades = vec![trade_context_from_row(a), trade_context_from_row(b)];
    let generated_at = ts(7);
    let report =
        build_attribution_report(trades, safety(), safety(), None, None, None, generated_at).unwrap();
    assert_eq!(report.generated_at, generated_at);
    assert_eq!(report.safety_counts_before, report.safety_counts_after);
    assert_eq!(report.coverage.total_trades, 2);
    assert!(report.coverage.warnings.is_empty());
    assert_eq!(report.winners.group, "winners");
    assert_eq!(report.winners.trades, 1);
    assert_eq!(report.losers.group, "losers");
    assert_eq!(report.losers.trades, 1);
    let labels = |v: &Vec<aegis_db::attribution::RsV1DerivativesGroupSummary>| {
        v.iter().map(|g| g.group.clone()).collect::<Vec<_>>()
    };
    assert_eq!(labels(&report.by_symbol), vec!["BTCUSDT", "ETHUSDT"]);
    assert_eq!(labels(&report.by_period), vec!["2023-2024", "2025+"]);
    assert_eq!(labels(&report.by_funding_bucket), vec!["Negative", "Positive"]);
    assert_eq!(labels(&report.by_price_oi_regime), vec!["PriceUpOiDown", "PriceUpOiUp"]);
    assert_eq!(report.sample_trades.len(), 2);
    assert_eq!(report.sample_trades[0].trade_index, 1);
    assert_eq!(report.classification, "DATA_LAYER_READY_ATTRIBUTION_PROMISING");
}
