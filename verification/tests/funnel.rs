use aegis_db::funnel::{build_testnet_promotion_dropoff_breakdown, empty_testnet_promotion_funnel_summary};
use aegis_db::decimal::Dec;
use aegis_db::funnel::{
    average_duration_seconds, bounded_testnet_promotion_funnel_limit, duration_millis,
    promotion_rate, row_counts_as_duplicate_rejected, row_counts_as_submitted,
    summarize_testnet_promotion_funnel_rows, TestnetExecutionState,
    TestnetPromotionFunnelMaterializedRow, TestnetPromotionFunnelRequest,
};
use aegis_db::timestamp::Timestamp;
use chrono::TimeZone;
use uuid::Uuid;

fn ts(micros: i64) -> Timestamp {
    Timestamp::new(micros.div_euclid(1_000_000), (micros.rem_euclid(1_000_000) * 1_000) as u32).unwrap()
}

fn micros_of(t: Timestamp) -> i64 {
    t.secs() * 1_000_000 + (t.subsec_nanos() / 1_000) as i64
}

const MICROS_PER_SECOND: i64 = 1_000_000;

fn at(base: Timestamp, seconds: i64) -> Timestamp {
    ts(micros_of(base) + seconds * MICROS_PER_SECOND)
}

fn may_first() -> Timestamp {
    ts(chrono::Utc.with_ymd_and_hms(2026, 5, 1, 0, 0, 0).unwrap().timestamp_micros())
}

fn empty_request() -> TestnetPromotionFunnelRequest {
    TestnetPromotionFunnelRequest {
        strategy_id: None,
        symbol: None,
        timeframe: None,
        start_time: None,
        end_time: None,
        limit: None,
    }
}

fn bare_row(created: Timestamp) -> TestnetPromotionFunnelMaterializedRow {
    TestnetPromotionFunnelMaterializedRow {
        shadow_run_id: Uuid::new_v4(),
        promotion_id: None,
        strategy_id: "momentum_v1".to_string(),
        symbol: "BTCUSDT".to_string(),
        timeframe: "1m".to_string(),
        promotion_status: None,
        promotion_rejection_reasons: Vec::new(),
        testnet_order_id: None,
        client_order_id: None,
        effective_execution_state: None,
        linked_order_missing: false,
        shadow_created_at: created,
        promotion_created_at: None,
        submitted_at: None,
        acked_at: None,
        last_lifecycle_at: None,
    }
}

#[test]
fn promotion_funnel_summary_handles_missing_linked_order() {
    let shadow_created_at = may_first();
    let promotion_created_at = at(shadow_created_at, 8);
    let submitted_at = at(promotion_created_at, 4);
    let summary = summarize_testnet_promotion_funnel_rows(
        &TestnetPromotionFunnelRequest {
            strategy_id: Some("momentum_v1".to_string()),
            symbol: Some("BTCUSDT".to_string()),
            timeframe: Some("1m".to_string()),
            start_time: None,
            end_time: None,
            limit: None,
        },
        &vec![TestnetPromotionFunnelMaterializedRow {
            shadow_run_id: Uuid::new_v4(),
            promotion_id: Some(Uuid::new_v4()),
            strategy_id: "momentum_v1".to_string(),
            symbol: "BTCUSDT".to_string(),
            timeframe: "1m".to_string(),
            promotion_status: Some("SUBMITTED".to_string()),
            promotion_rejection_reasons: Vec::new(),
            testnet_order_id: None,
            client_order_id: Some("client-1".to_string()),
            effective_execution_state: None,
            linked_order_missing: true,
            shadow_created_at,
            promotion_created_at: Some(promotion_created_at),
            submitted_at: Some(submitted_at),
            acked_at: None,
            last_lifecycle_at: None,
        }],
        may_first(),
    );

    assert_eq!(summary.shadow_would_submit_count, 1);
    assert_eq!(summary.promotion_previewed_count, 1);
    assert_eq!(summary.promotion_submitted_count, 1);
    assert_eq!(summary.testnet_orders_created_count, 1);
    assert_eq!(summary.acked_count, 0);
    assert_eq!(summary.fill_rate_pct, Dec::zero());
    assert_eq!(summary.avg_time_shadow_to_preview_seconds, Some(Dec::from_int(8)));
    assert_eq!(summary.avg_time_preview_to_submit_seconds, Some(Dec::from_int(4)));
}

#[test]
fn promotion_funnel_summary_counts_lifecycle_outcomes() {
    let created_at = may_first();
    let summary = summarize_testnet_promotion_funnel_rows(
        &empty_request(),
        &vec![TestnetPromotionFunnelMaterializedRow {
            shadow_run_id: Uuid::new_v4(),
            promotion_id: Some(Uuid::new_v4()),
            strategy_id: "momentum_v1".to_string(),
            symbol: "BTCUSDT".to_string(),
            timeframe: "1m".to_string(),
            promotion_status: Some("SUBMITTED".to_string()),
            promotion_rejection_reasons: Vec::new(),
            testnet_order_id: Some(Uuid::new_v4()),
            client_order_id: Some("client-2".to_string()),
            effective_execution_state: Some(TestnetExecutionState::Filled),
            linked_order_missing: false,
            shadow_created_at: created_at,
            promotion_created_at: Some(at(created_at, 2)),
            submitted_at: Some(at(created_at, 3)),
            acked_at: Some(at(created_at, 4)),
            last_lifecycle_at: Some(at(created_at, 5)),
        }],
        created_at,
    );

    assert_eq!(summary.acked_count, 1);
    assert_eq!(summary.filled_count, 1);
    assert_eq!(
        summary.lifecycle_breakdown[2].execution_state,
        TestnetExecutionState::Filled.as_str()
    );
    assert_eq!(summary.fill_rate_pct, Dec::new(10000, 2));
}

#[test]
fn promotion_funnel_summary_of_no_rows_is_empty() {
    let computed_at = may_first();
    let summary = summarize_testnet_promotion_funnel_rows(&empty_request(), &Vec::new(), computed_at);
    assert_eq!(summary.shadow_would_submit_count, 0);
    assert_eq!(summary.preview_rate_pct, Dec::zero());
    assert_eq!(summary.avg_time_shadow_to_preview_seconds, None);
    assert_eq!(summary.computed_at, computed_at);
    assert_eq!(summary.stages.len(), 6);
    assert_eq!(summary.stages[0].rate_pct, Dec::zero());
    assert_eq!(summary.dropoff_breakdown.len(), 4);
    assert_eq!(summary.outcome_breakdown.len(), 10);
    assert_eq!(summary.lifecycle_breakdown.len(), 9);
    assert_eq!(summary.quality_signals.len(), 5);
}

#[test]
fn promotion_funnel_narrows_from_shadow_to_fill() {
    let base = may_first();
    let mut previewed = bare_row(base);
    previewed.promotion_id = Some(Uuid::new_v4());
    previewed.promotion_status = Some("REJECTED".to_string());
    previewed.promotion_rejection_reasons = vec!["duplicate_submit".to_string()];
    previewed.promotion_created_at = Some(at(base, 3));
    let mut acked = bare_row(base);
    acked.promotion_id = Some(Uuid::new_v4());
    acked.promotion_status = Some("SUBMITTED".to_string());
    acked.promotion_created_at = Some(at(base, 5));
    acked.submitted_at = Some(at(base, 6));
    acked.testnet_order_id = Some(Uuid::new_v4());
    acked.acked_at = Some(at(base, 7));
    acked.effective_execution_state = Some(TestnetExecutionState::ExchangeAcked);
    let rows = vec![bare_row(base), previewed, acked];
    let summary = summarize_testnet_promotion_funnel_rows(&empty_request(), &rows, base);

    assert_eq!(summary.shadow_would_submit_count, 3);
    assert_eq!(summary.promotion_previewed_count, 2);
    assert_eq!(summary.promotion_submitted_count, 1);
    assert_eq!(summary.promotion_rejected_count, 1);
    assert_eq!(summary.promotion_duplicate_rejected_count, 1);
    assert_eq!(summary.testnet_orders_created_count, 1);
    assert_eq!(summary.acked_count, 1);
    assert_eq!(summary.filled_count, 0);
    assert_eq!(summary.preview_rate_pct, Dec::new(6667, 2));
    assert_eq!(summary.submit_rate_pct, Dec::new(5000, 2));
    assert_eq!(summary.avg_time_shadow_to_preview_seconds, Some(Dec::from_int(4)));
    assert_eq!(summary.avg_time_preview_to_submit_seconds, Some(Dec::from_int(1)));
    assert_eq!(summary.dropoff_breakdown[0].stage, "shadow_to_preview");
    assert_eq!(summary.dropoff_breakdown[0].dropped_count, 1);
    assert_eq!(summary.dropoff_breakdown[0].dropoff_rate_pct, Dec::new(3333, 2));
    assert_eq!(summary.stages[0].rate_pct, Dec::from_int(100));
    let counts: Vec<i64> = summary.stages.iter().map(|s| s.count).collect();
    assert!(counts[0] >= counts[1] && counts[1] >= counts[2]);
}

#[test]
fn promotion_rate_rounds_half_to_even_at_two_decimals() {
    assert_eq!(promotion_rate(1, 3), Dec::new(3333, 2));
    assert_eq!(promotion_rate(2, 3), Dec::new(6667, 2));
    assert_eq!(promotion_rate(1, 8), Dec::new(1250, 2));
    assert_eq!(promotion_rate(1, 80000), Dec::zero());
    assert_eq!(promotion_rate(1, 40000), Dec::zero());
    assert_eq!(promotion_rate(3, 40000), Dec::new(1, 2));
    assert_eq!(promotion_rate(5, 0), Dec::zero());
    assert_eq!(promotion_rate(5, -2), Dec::zero());
    assert_eq!(promotion_rate(4, 4), Dec::from_int(100));
}

#[test]
fn average_duration_rounds_to_milliseconds() {
    assert_eq!(average_duration_seconds(12_000, 3), Some(Dec::from_int(4)));
    assert_eq!(average_duration_seconds(1_001, 2), Some(Dec::new(500, 3)));
    assert_eq!(average_duration_seconds(1_003, 2), Some(Dec::new(502, 3)));
    assert_eq!(average_duration_seconds(10, 0), None);
}

#[test]
fn duration_between_timestamps_in_milliseconds() {
    let base = may_first();
    assert_eq!(duration_millis(base, at(base, 8)), Some(8_000));
    assert_eq!(duration_millis(at(base, 8), base), None);
}

#[test]
fn funnel_limit_defaults_and_caps() {
    assert_eq!(bounded_testnet_promotion_funnel_limit(None), 100);
    assert_eq!(bounded_testnet_promotion_funnel_limit(Some(0)), 100);
    assert_eq!(bounded_testnet_promotion_funnel_limit(Some(-5)), 100);
    assert_eq!(bounded_testnet_promotion_funnel_limit(Some(250)), 250);
    assert_eq!(bounded_testnet_promotion_funnel_limit(Some(5000)), 1000);
}

#[test]
fn execution_state_names_round_trip() {
    for state in [
        TestnetExecutionState::ExchangeAcked,
        TestnetExecutionState::PartiallyFilled,
        TestnetExecutionState::Filled,
        TestnetExecutionState::Cancelled,
        TestnetExecutionState::Rejected,
        TestnetExecutionState::Expired,
        TestnetExecutionState::ReconciliationRequired,
        TestnetExecutionState::UnknownExchangeState,
        TestnetExecutionState::Failed,
    ] {
        assert_eq!(TestnetExecutionState::parse(&state.as_str()), Some(state));
    }
    assert_eq!(TestnetExecutionState::parse("filled"), None);
    assert_eq!(TestnetExecutionState::Filled.as_str(), "FILLED");
}

#[test]
fn submitted_and_duplicate_row_predicates() {
    let base = may_first();
    let mut row = bare_row(base);
    assert!(!row_counts_as_submitted(&row));
    row.client_order_id = Some("c".to_string());
    assert!(row_counts_as_submitted(&row));
    assert!(!row_counts_as_duplicate_rejected(&row));
    row.promotion_status = Some("ALREADY_PROMOTED".to_string());
    assert!(row_counts_as_duplicate_rejected(&row));
    let mut other = bare_row(base);
    other.promotion_rejection_reasons = vec!["stale_feed".to_string(), "already_promoted".to_string()];
    assert!(row_counts_as_duplicate_rejected(&other));
}

#[test]
fn rates_of_a_part_stay_within_percent() {
    for denominator in 1..40 {
        for numerator in 0..=denominator {
            let rate = promotion_rate(numerator, denominator);
            assert!(Dec::zero().le(&rate) && rate.le(&Dec::from_int(100)));
        }
    }
}

#[test]
fn dropoffs_clamp_at_zero_for_any_counts() {
    let mut s = empty_testnet_promotion_funnel_summary(&empty_request(), may_first());
    s.shadow_would_submit_count = -2;
    s.promotion_previewed_count = 3;
    s.promotion_submitted_count = -4;
    s.acked_count = 1;
    s.filled_count = 1;
    let d = build_testnet_promotion_dropoff_breakdown(&s);
    let drops: Vec<i64> = d.iter().map(|e| e.dropped_count).collect();
    assert_eq!(drops, vec![0, 7, 0, 0]);
    assert_eq!(d[0].dropoff_rate_pct, Dec::zero());
    assert_eq!(d[1].dropoff_rate_pct, Dec::new(23333, 2));
    assert_eq!(d[1].stage, "preview_to_submit");
}

#[test]
fn negative_duration_rows_add_no_sample() {
    let base = may_first();
    let mut good = bare_row(base);
    good.promotion_created_at = Some(at(base, 6));
    let mut early = bare_row(base);
    early.promotion_created_at = Some(at(base, -3));
    let one = summarize_testnet_promotion_funnel_rows(&empty_request(), &vec![good], base);
    let mut good2 = bare_row(base);
    good2.promotion_created_at = Some(at(base, 6));
    let two = summarize_testnet_promotion_funnel_rows(&empty_request(), &vec![good2, early], base);
    assert_eq!(one.avg_time_shadow_to_preview_seconds, Some(Dec::from_int(6)));
    assert_eq!(two.avg_time_shadow_to_preview_seconds, one.avg_time_shadow_to_preview_seconds);
    assert_eq!(two.avg_time_preview_to_submit_seconds, None);
}

#[test]
fn durations_truncate_nanoseconds_toward_zero() {
    let base = Timestamp::new(1_800_000_000, 0).unwrap();
    let later = Timestamp::new(1_800_000_001, 999_999).unwrap();
    assert_eq!(duration_millis(base, later), Some(1_000));
    let slightly_earlier = Timestamp::new(1_799_999_999, 999_000_001).unwrap();
    assert_eq!(duration_millis(base, slightly_earlier), Some(0));
    let a_millisecond_earlier = Timestamp::new(1_799_999_999, 999_000_000).unwrap();
    assert_eq!(duration_millis(base, a_millisecond_earlier), None);
}
