use aegis_db::research::{first_attribution_time, review_rejection_reason, shadow_pnl_attribution_window};
use aegis_db::microstructure::{MicrostructureMetricKind, MicrostructureUpsertSummary};
use aegis_db::research::{
    parse_research_hypothesis_priority, parse_research_hypothesis_source,
    parse_research_hypothesis_status, parse_research_regime_label, ResearchHypothesisPriority,
    ResearchHypothesisSource, ResearchHypothesisStatus, ResearchRegimeLabel,
    bounded_research_candidate_qualification_history_limit,
    bounded_research_candidate_shadow_run_limit, legacy_source_for_research_candidate,
    legacy_status_for_research_candidate, parse_execution_readiness_status,
    parse_qualification_recommendation, parse_qualification_status, resolve_shadow_run_candidate,
    ExecutionReadinessStatus, ResearchCandidateListFilters,
    ResearchCandidateQualificationRecommendation, ResearchCandidateQualificationStatus,
    ResearchCandidateStatus, ShadowRunCandidateMatchOutcome, StrategyResearchCandidateListFilters,
    StrategyResearchCandidateSource, StrategyResearchCandidateStatus,
};
use aegis_db::test_support::{
    assert_safe_test_database, check_test_database_name, database_name_is_for_tests,
    TestDatabaseError,
};
use aegis_db::text::{normalize_lower, normalize_upper, str_lt};
use aegis_db::timestamp::Timestamp;
use uuid::Uuid;

fn ts(micros: i64) -> Timestamp {
    Timestamp::new(micros.div_euclid(1_000_000), (micros.rem_euclid(1_000_000) * 1_000) as u32).unwrap()
}

fn micros_of(t: Timestamp) -> i64 {
    t.secs() * 1_000_000 + (t.subsec_nanos() / 1_000) as i64
}

#[test]
fn research_limits_are_clamped() {
    assert_eq!(bounded_research_candidate_shadow_run_limit(0), 1);
    assert_eq!(bounded_research_candidate_shadow_run_limit(42), 42);
    assert_eq!(bounded_research_candidate_shadow_run_limit(10_000), 500);
    assert_eq!(bounded_research_candidate_qualification_history_limit(-3), 1);
    assert_eq!(bounded_research_candidate_qualification_history_limit(500), 500);
}

#[test]
fn qualification_names_parse_trimmed_in_any_case() {
    assert_eq!(parse_qualification_status(" qualified ").unwrap(), ResearchCandidateQualificationStatus::Qualified);
    assert_eq!(parse_qualification_status("needs_more_data").unwrap(), ResearchCandidateQualificationStatus::NeedsMoreData);
    let err = parse_qualification_status("maybe").unwrap_err();
    assert_eq!(err.value, "MAYBE");
    assert_eq!(parse_execution_readiness_status("Not_Ready").unwrap(), ExecutionReadinessStatus::NotReady);
    assert!(parse_execution_readiness_status("ready-ish").is_err());
    assert_eq!(
        parse_qualification_recommendation("ready_for_testnet_promotion_consideration").unwrap(),
        ResearchCandidateQualificationRecommendation::ReadyForTestnetPromotionConsideration
    );
    assert!(parse_qualification_recommendation("wait").is_err());
}

#[test]
fn legacy_status_and_source_of_a_candidate() {
    assert_eq!(
        legacy_status_for_research_candidate(ResearchCandidateStatus::Observing),
        StrategyResearchCandidateStatus::Registered
    );
    assert_eq!(
        legacy_status_for_research_candidate(ResearchCandidateStatus::PromotedToShadowConfig),
        StrategyResearchCandidateStatus::PromotedToShadowConfig
    );
    assert_eq!(
        legacy_status_for_research_candidate(ResearchCandidateStatus::Archived),
        StrategyResearchCandidateStatus::Archived
    );
    assert_eq!(legacy_source_for_research_candidate(Some(Uuid::nil())), StrategyResearchCandidateSource::ExperimentRun);
    assert_eq!(legacy_source_for_research_candidate(None), StrategyResearchCandidateSource::Manual);
}

#[test]
fn shadow_run_matches_latest_unambiguous_promotion() {
    let a = Uuid::new_v4();
    let b = Uuid::new_v4();
    assert_eq!(resolve_shadow_run_candidate(&Vec::new()), ShadowRunCandidateMatchOutcome::NotFound);
    assert_eq!(
        resolve_shadow_run_candidate(&vec![(a, ts(9))]),
        ShadowRunCandidateMatchOutcome::Matched(a)
    );
    assert_eq!(
        resolve_shadow_run_candidate(&vec![(a, ts(9)), (b, ts(5))]),
        ShadowRunCandidateMatchOutcome::Matched(a)
    );
    assert_eq!(
        resolve_shadow_run_candidate(&vec![(a, ts(9)), (b, ts(9))]),
        ShadowRunCandidateMatchOutcome::Ambiguous
    );
}

#[test]
fn list_filters_default_to_no_filter() {
    let f = StrategyResearchCandidateListFilters::default();
    assert!(f.strategy_id.is_none() && f.symbol.is_none() && f.timeframe.is_none() && f.status.is_none());
    let g = ResearchCandidateListFilters::default();
    assert!(g.strategy_id.is_none() && g.status.is_none());
}

#[test]
fn microstructure_summary_counts_rows_by_kind() {
    let mut s = MicrostructureUpsertSummary::default();
    s.record(MicrostructureMetricKind::Spread);
    s.record(MicrostructureMetricKind::Spread);
    s.record(MicrostructureMetricKind::Liquidity);
    assert_eq!(s, MicrostructureUpsertSummary { spread_rows: 2, imbalance_rows: 0, liquidity_rows: 1 });
}

#[test]
fn test_database_names_must_mention_test() {
    assert!(database_name_is_for_tests("aegis_test"));
    assert!(database_name_is_for_tests("TEST"));
    assert!(database_name_is_for_tests("my_TeSt_db"));
    assert!(!database_name_is_for_tests("aegis"));
    assert!(!database_name_is_for_tests("tes"));
    assert!(check_test_database_name(Some("aegis_test".to_string())).is_ok());
    assert_eq!(check_test_database_name(None), Err(TestDatabaseError::MissingDatabaseName));
    assert_eq!(
        check_test_database_name(Some("production".to_string())),
        Err(TestDatabaseError::NotATestDatabase("production".to_string()))
    );
}

#[test]
fn safe_test_database_parses_the_url() {
    assert!(assert_safe_test_database("postgres://u:p@localhost:5432/aegis_test", false).is_ok());
    assert_eq!(
        assert_safe_test_database("postgres://u:p@localhost:5432/aegis", false),
        Err(TestDatabaseError::NotATestDatabase("aegis".to_string()))
    );
    assert!(assert_safe_test_database("postgres://u:p@localhost:5432/aegis", true).is_ok());
    assert_eq!(
        assert_safe_test_database("not a url", false),
        Err(TestDatabaseError::InvalidConnectionString)
    );
}

#[test]
fn safe_test_database_reads_the_name_the_url_gives() {
    assert!(assert_safe_test_database("postgres://localhost/aegis%5Ftest", false).is_ok());
    assert!(assert_safe_test_database("postgres://localhost/aegis?dbname=aegis_test", false).is_ok());
    assert_eq!(
        assert_safe_test_database("postgres://localhost/aegis_test?dbname=prod", false),
        Err(TestDatabaseError::NotATestDatabase("prod".to_string()))
    );
    assert_eq!(
        assert_safe_test_database("postgres://localhost:notaport/aegis_test", false),
        Err(TestDatabaseError::InvalidConnectionString)
    );
}

#[test]
fn text_normalisation_and_order() {
    assert_eq!(normalize_upper("  btcusdt\t"), "BTCUSDT");
    assert_eq!(normalize_lower(" MiXeD "), "mixed");
    assert_eq!(normalize_upper("\u{3000}eth\u{a0}\n"), "ETH");
    assert_eq!(normalize_upper("a b"), "A B");
    assert!(str_lt("0001", "0002"));
    assert!(str_lt("abc", "abcd"));
    assert!(!str_lt("b", "abc"));
    assert!(!str_lt("same", "same"));
}

#[test]
fn hypothesis_and_regime_names_parse_exactly() {
    assert_eq!(
        parse_research_hypothesis_source("EXIT_ATTRIBUTION").unwrap(),
        ResearchHypothesisSource::ExitAttribution
    );
    assert_eq!(
        parse_research_hypothesis_status("ACCEPTED_FOR_EXPERIMENT").unwrap(),
        ResearchHypothesisStatus::AcceptedForExperiment
    );
    assert_eq!(parse_research_hypothesis_priority("LOW").unwrap(), ResearchHypothesisPriority::Low);
    assert_eq!(parse_research_regime_label("HIGH_VOLATILITY").unwrap(), ResearchRegimeLabel::HighVolatility);
    let err = parse_research_hypothesis_priority("high").unwrap_err();
    assert_eq!(err.kind, "research hypothesis priority");
    assert_eq!(err.value, "high");
    assert!(parse_research_regime_label(" RANGE").is_err());
    assert!(parse_research_hypothesis_source("").is_err());
}

#[test]
fn shadow_pnl_window_defaults_and_clamps() {
    let updated = ts(10);
    let now = ts(99);
    assert_eq!(shadow_pnl_attribution_window(None, None, None, updated, now), (updated, now, 100));
    let s = ts(20);
    let e = ts(30);
    assert_eq!(shadow_pnl_attribution_window(Some(s), Some(e), Some(0), updated, now), (s, e, 1));
    assert_eq!(shadow_pnl_attribution_window(None, None, Some(5000), updated, now).2, 1000);
    assert_eq!(shadow_pnl_attribution_window(None, None, Some(250), updated, now).2, 250);
}

#[test]
fn review_keeps_a_reason_only_on_rejection() {
    let reason = Some("too noisy".to_string());
    assert_eq!(review_rejection_reason(ResearchCandidateStatus::Rejected, reason.clone()), reason);
    assert_eq!(review_rejection_reason(ResearchCandidateStatus::Observing, reason.clone()), None);
    assert_eq!(review_rejection_reason(ResearchCandidateStatus::PromotedToShadowConfig, reason), None);
    assert_eq!(review_rejection_reason(ResearchCandidateStatus::Rejected, None), None);
}

#[test]
fn first_attribution_time_prefers_signal_times() {
    assert_eq!(first_attribution_time(&Vec::new()), None);
    let runs = vec![
        (ts(500), Some(ts(400))),
        (ts(300), None),
        (ts(900), Some(ts(350))),
    ];
    assert_eq!(first_attribution_time(&runs).map(micros_of), Some(300));
    let runs = vec![(ts(500), Some(ts(100))), (ts(50), Some(ts(200)))];
    assert_eq!(first_attribution_time(&runs).map(micros_of), Some(100));
}
