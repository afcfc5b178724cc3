use aegis_db::decimal::Dec;
use aegis_db::performance::{
    analytics_window, bounded_analytics_limit, build_risk_state_snapshot, consecutive_losses,
    loss_pct, rank_strategy_comparisons, StrategyComparisonSummary, StrategyPerformanceMode,
};
use aegis_db::timestamp::Timestamp;

const MICROS_PER_DAY: i64 = 86_400_000_000;

fn ts(micros: i64) -> Timestamp {
    Timestamp::new(micros.div_euclid(1_000_000), (micros.rem_euclid(1_000_000) * 1_000) as u32).unwrap()
}

fn micros_of(t: Timestamp) -> i64 {
    t.secs() * 1_000_000 + (t.subsec_nanos() / 1_000) as i64
}

fn summary(id: &str, realized: Dec, shadow: i64, rejected: i64, avg_backtest: Option<Dec>) -> StrategyComparisonSummary {
    StrategyComparisonSummary {
        strategy_id: id.to_string(),
        symbol: None,
        timeframe: None,
        mode: StrategyPerformanceMode::Combined,
        realized_pnl: realized,
        unrealized_pnl: Dec::zero(),
        risk_rejection_rate: Dec::zero(),
        win_rate: None,
        best_backtest_pnl_pct: None,
        worst_backtest_pnl_pct: None,
        avg_backtest_pnl_pct: avg_backtest,
        shadow_would_submit_count: shadow,
        shadow_no_signal_count: 0,
        shadow_risk_rejected_count: 0,
        approved_risk_decisions: 0,
        rejected_risk_decisions: rejected,
        paper_orders_count: 0,
        total_signals: 0,
        total_runs: 0,
        computed_at: ts(0),
    }
}

fn ids(v: &[StrategyComparisonSummary]) -> Vec<&str> {
    v.iter().map(|s| s.strategy_id.as_str()).collect()
}

#[test]
fn analytics_limit_defaults_and_caps() {
    assert_eq!(bounded_analytics_limit(None), 20);
    assert_eq!(bounded_analytics_limit(Some(0)), 20);
    assert_eq!(bounded_analytics_limit(Some(7)), 7);
    assert_eq!(bounded_analytics_limit(Some(1000)), 100);
}

#[test]
fn analytics_window_defaults_to_seven_days_and_orders_bounds() {
    let now = ts(30 * MICROS_PER_DAY);
    let (start, end, computed) = analytics_window(None, None, now);
    assert_eq!(end, now);
    assert_eq!(micros_of(start), 23 * MICROS_PER_DAY);
    assert_eq!(computed, now);
    let a = ts(5);
    let b = ts(9);
    let (start, end, _) = analytics_window(Some(b), Some(a), now);
    assert_eq!((start, end), (a, b));
}

#[test]
fn ranking_by_mode_with_ties_broken_by_id() {
    let make = || {
        vec![
            summary("b", Dec::from_int(5), 1, 3, Some(Dec::from_int(2))),
            summary("a", Dec::from_int(5), 2, 1, None),
            summary("c", Dec::from_int(9), 2, 0, Some(Dec::new(-1, 1))),
            summary("d", Dec::new(50, 1), 1, 3, Some(Dec::from_int(2))),
        ]
    };
    assert_eq!(ids(&rank_strategy_comparisons(StrategyPerformanceMode::Paper, make(), 10)), vec!["c", "a", "b", "d"]);
    assert_eq!(ids(&rank_strategy_comparisons(StrategyPerformanceMode::Combined, make(), 10)), vec!["c", "a", "b", "d"]);
    assert_eq!(ids(&rank_strategy_comparisons(StrategyPerformanceMode::Shadow, make(), 10)), vec!["a", "c", "b", "d"]);
    assert_eq!(ids(&rank_strategy_comparisons(StrategyPerformanceMode::Backtest, make(), 10)), vec!["b", "d", "a", "c"]);
    assert_eq!(ids(&rank_strategy_comparisons(StrategyPerformanceMode::Paper, make(), 2)), vec!["c", "a"]);
    assert!(rank_strategy_comparisons(StrategyPerformanceMode::Paper, make(), 0).is_empty());
}

#[test]
fn fully_tied_summaries_keep_their_input_order() {
    let mut first = summary("x", Dec::new(50, 1), 1, 0, None);
    first.symbol = Some("BTCUSDT".to_string());
    let mut second = summary("x", Dec::from_int(5), 1, 0, None);
    second.symbol = Some("ETHUSDT".to_string());
    let leader = summary("a", Dec::from_int(9), 1, 0, None);
    let ranked = rank_strategy_comparisons(StrategyPerformanceMode::Paper, vec![first, leader, second], 10);
    let symbols: Vec<Option<&str>> = ranked.iter().map(|s| s.symbol.as_deref()).collect();
    assert_eq!(symbols, vec![None, Some("BTCUSDT"), Some("ETHUSDT")]);
}

#[test]
fn consecutive_losses_count_from_the_latest() {
    let pnls = vec![Dec::from_int(-1), Dec::new(-5, 1), Dec::zero(), Dec::from_int(-3)];
    assert_eq!(consecutive_losses(&pnls), 2);
    assert_eq!(consecutive_losses(&vec![Dec::from_int(1), Dec::from_int(-1)]), 0);
    assert_eq!(consecutive_losses(&Vec::new()), 0);
}

#[test]
fn loss_percent_of_equity() {
    assert_eq!(loss_pct(Some(Dec::from_int(50)), Some(Dec::from_int(1000))).unwrap(), Some(Dec::from_int(5)));
    assert_eq!(loss_pct(Some(Dec::from_int(50)), Some(Dec::zero())).unwrap(), None);
    assert_eq!(loss_pct(None, Some(Dec::from_int(1000))).unwrap(), None);
    assert_eq!(loss_pct(Some(Dec::from_int(50)), Some(Dec::from_int(-10))).unwrap(), None);
}

#[test]
fn risk_state_snapshot_collects_the_figures() {
    let snap = build_risk_state_snapshot(
        true,
        Some("manual".to_string()),
        Some(3),
        Some(Dec::from_int(2000)),
        Some(Dec::from_int(20)),
        Some(Dec::from_int(100)),
        &vec![Dec::from_int(-1), Dec::from_int(2)],
        Some(ts(9)),
        None,
    )
    .unwrap();
    assert!(snap.kill_switch_enabled);
    assert_eq!(snap.kill_switch_reason.as_deref(), Some("manual"));
    assert_eq!(snap.open_positions_count, Some(3));
    assert_eq!(snap.daily_loss_pct, Some(Dec::from_int(1)));
    assert_eq!(snap.weekly_loss_pct, Some(Dec::from_int(5)));
    assert_eq!(snap.consecutive_losses, Some(1));
    assert_eq!(snap.latest_market_data_at, Some(ts(9)));
    assert_eq!(snap.last_trade_at, None);
    let negative = build_risk_state_snapshot(false, None, Some(-1), None, None, None, &Vec::new(), None, None)
        .unwrap();
    assert_eq!(negative.open_positions_count, None);
    assert_eq!(negative.daily_loss_pct, None);
    assert_eq!(negative.consecutive_losses, Some(0));
}
