//! Research candidates and hypotheses: limits of their queries, the stored
//! names of their states, the older candidate table's status and source, and
//! the match of a shadow run to a promoted candidate.
use crate::text::{normalize_upper, normalized_upper, str_eq};
use crate::timestamp::{ts_le, Timestamp};
use uuid::Uuid;
use vstd::prelude::*;

verus! {

/// `limit` clamped to 1..=500.
pub open spec fn clamp_limit(limit: int) -> int {
    if limit < 1 {
        1
    } else if limit > 500 {
        500
    } else {
        limit
    }
}

/// The number of shadow runs listed for a candidate: the request clamped to 1..=500.
pub fn bounded_research_candidate_shadow_run_limit(limit: i64) -> (l: i64)
    ensures
        l == clamp_limit(limit as int),
{
    if limit < 1 {
        1
    } else if limit > 500 {
        500
    } else {
        limit
    }
}

/// The number of qualification evaluations listed: the request clamped to 1..=500.
pub fn bounded_research_candidate_qualification_history_limit(limit: i64) -> (l: i64)
    ensures
        l == clamp_limit(limit as int),
{
    if limit < 1 {
        1
    } else if limit > 500 {
        500
    } else {
        limit
    }
}

/// Whether a research candidate qualifies for testnet consideration.
#[derive(Clone, Copy, Debug, PartialEq, Eq, Structural)]
pub enum ResearchCandidateQualificationStatus {
    Qualified,
    NotQualified,
    NeedsMoreData,
    Degraded,
    Unknown,
}

/// The qualification status with the given stored name.
pub open spec fn qualification_status_named(n: Seq<char>) -> Option<ResearchCandidateQualificationStatus> {
    if n == "QUALIFIED"@ {
        Some(ResearchCandidateQualificationStatus::Qualified)
    } else if n == "NOT_QUALIFIED"@ {
        Some(ResearchCandidateQualificationStatus::NotQualified)
    } else if n == "NEEDS_MORE_DATA"@ {
        Some(ResearchCandidateQualificationStatus::NeedsMoreData)
    } else if n == "DEGRADED"@ {
        Some(ResearchCandidateQualificationStatus::Degraded)
    } else if n == "UNKNOWN"@ {
        Some(ResearchCandidateQualificationStatus::Unknown)
    } else {
        None
    }
}

/// A stored name that no variant has.
#[derive(Debug)]
pub struct UnsupportedName {
    pub kind: String,
    pub value: String,
}

/// The qualification status of a stored name (trimmed, any ASCII case).
pub fn parse_qualification_status(value: &str) -> (r: Result<ResearchCandidateQualificationStatus, UnsupportedName>)
    ensures
        match r {
            Ok(s) => qualification_status_named(normalized_upper(value@)) == Some(s),
            Err(e) => qualification_status_named(normalized_upper(value@)) is None && e.value@ == normalized_upper(value@)
                && e.kind@ == "research candidate qualification status"@,
        },
{
    let v = normalize_upper(value);
    let s = v.as_str();
    if str_eq(s, "QUALIFIED") {
        Ok(ResearchCandidateQualificationStatus::Qualified)
    } else if str_eq(s, "NOT_QUALIFIED") {
        Ok(ResearchCandidateQualificationStatus::NotQualified)
    } else if str_eq(s, "NEEDS_MORE_DATA") {
        Ok(ResearchCandidateQualificationStatus::NeedsMoreData)
    } else if str_eq(s, "DEGRADED") {
        Ok(ResearchCandidateQualificationStatus::Degraded)
    } else if str_eq(s, "UNKNOWN") {
        Ok(ResearchCandidateQualificationStatus::Unknown)
    } else {
        Err(UnsupportedName { kind: crate::text::owned("research candidate qualification status"), value: v })
    }
}

/// The readiness of execution for testnet work.
#[derive(Clone, Copy, Debug, PartialEq, Eq, Structural)]
pub enum ExecutionReadinessStatus {
    Ready,
    NotReady,
    Degraded,
    Unknown,
}

/// The readiness status with the given stored name.
pub open spec fn readiness_status_named(n: Seq<char>) -> Option<ExecutionReadinessStatus> {
    if n == "READY"@ {
        Some(ExecutionReadinessStatus::Ready)
    } else if n == "NOT_READY"@ {
        Some(ExecutionReadinessStatus::NotReady)
    } else if n == "DEGRADED"@ {
        Some(ExecutionReadinessStatus::Degraded)
    } else if n == "UNKNOWN"@ {
        Some(ExecutionReadinessStatus::Unknown)
    } else {
        None
    }
}

/// The readiness status of a stored name (trimmed, any ASCII case).
pub fn parse_execution_readiness_status(value: &str) -> (r: Result<ExecutionReadinessStatus, UnsupportedName>)
    ensures
        match r {
            Ok(s) => readiness_status_named(normalized_upper(value@)) == Some(s),
            Err(e) => readiness_status_named(normalized_upper(value@)) is None && e.value@ == normalized_upper(value@)
                && e.kind@ == "readiness status"@,
        },
{
    let v = normalize_upper(value);
    let s = v.as_str();
    if str_eq(s, "READY") {
        Ok(ExecutionReadinessStatus::Ready)
    } else if str_eq(s, "NOT_READY") {
        Ok(ExecutionReadinessStatus::NotReady)
    } else if str_eq(s, "DEGRADED") {
        Ok(ExecutionReadinessStatus::Degraded)
    } else if str_eq(s, "UNKNOWN") {
        Ok(ExecutionReadinessStatus::Unknown)
    } else {
        Err(UnsupportedName { kind: crate::text::owned("readiness status"), value: v })
    }
}

/// What a qualification evaluation recommends.
#[derive(Clone, Copy, Debug, PartialEq, Eq, Structural)]
pub enum ResearchCandidateQualificationRecommendation {
    RefreshCandidateObservation,
    FixRunnerAlignment,
    ExpandShadowRunnerCoverage,
    GatherMoreShadowRuns,
    GenerateMoreWouldSubmitEvidence,
    ReviewRiskRejections,
    ReduceShadowErrorsOrSkips,
    RestoreTestnetShadowReadiness,
    ReAcceptCandidateForShadow,
    ReadyForTestnetPromotionConsideration,
}

/// The recommendation with the given stored name.
pub open spec fn recommendation_named(n: Seq<char>) -> Option<ResearchCandidateQualificationRecommendation> {
    if n == "REFRESH_CANDIDATE_OBSERVATION"@ {
        Some(ResearchCandidateQualificationRecommendation::RefreshCandidateObservation)
    } else if n == "FIX_RUNNER_ALIGNMENT"@ {
        Some(ResearchCandidateQualificationRecommendation::FixRunnerAlignment)
    } else if n == "EXPAND_SHADOW_RUNNER_COVERAGE"@ {
        Some(ResearchCandidateQualificationRecommendation::ExpandShadowRunnerCoverage)
    } else if n == "GATHER_MORE_SHADOW_RUNS"@ {
        Some(ResearchCandidateQualificationRecommendation::GatherMoreShadowRuns)
    } else if n == "GENERATE_MORE_WOULD_SUBMIT_EVIDENCE"@ {
        Some(ResearchCandidateQualificationRecommendation::GenerateMoreWouldSubmitEvidence)
    } else if n == "REVIEW_RISK_REJECTIONS"@ {
        Some(ResearchCandidateQualificationRecommendation::ReviewRiskRejections)
    } else if n == "REDUCE_SHADOW_ERRORS_OR_SKIPS"@ {
        Some(ResearchCandidateQualificationRecommendation::ReduceShadowErrorsOrSkips)
    } else if n == "RESTORE_TESTNET_SHADOW_READINESS"@ {
        Some(ResearchCandidateQualificationRecommendation::RestoreTestnetShadowReadiness)
    } else if n == "RE_ACCEPT_CANDIDATE_FOR_SHADOW"@ {
        Some(ResearchCandidateQualificationRecommendation::ReAcceptCandidateForShadow)
    } else if n == "READY_FOR_TESTNET_PROMOTION_CONSIDERATION"@ {
        Some(ResearchCandidateQualificationRecommendation::ReadyForTestnetPromotionConsideration)
    } else {
        None
    }
}

/// The recommendation of a stored name (trimmed, any ASCII case).
pub fn parse_qualification_recommendation(value: &str) -> (r: Result<ResearchCandidateQualificationRecommendation, UnsupportedName>)
    ensures
        match r {
            Ok(s) => recommendation_named(normalized_upper(value@)) == Some(s),
            Err(e) => recommendation_named(normalized_upper(value@)) is None && e.value@ == normalized_upper(value@)
                && e.kind@ == "research candidate qualification recommendation"@,
        },
{
    let v = normalize_upper(value);
    let s = v.as_str();
    if str_eq(s, "REFRESH_CANDIDATE_OBSERVATION") {
        Ok(ResearchCandidateQualificationRecommendation::RefreshCandidateObservation)
    } else if str_eq(s, "FIX_RUNNER_ALIGNMENT") {
        Ok(ResearchCandidateQualificationRecommendation::FixRunnerAlignment)
    } else if str_eq(s, "EXPAND_SHADOW_RUNNER_COVERAGE") {
        Ok(ResearchCandidateQualificationRecommendation::ExpandShadowRunnerCoverage)
    } else if str_eq(s, "GATHER_MORE_SHADOW_RUNS") {
        Ok(ResearchCandidateQualificationRecommendation::GatherMoreShadowRuns)
    } else if str_eq(s, "GENERATE_MORE_WOULD_SUBMIT_EVIDENCE") {
        Ok(ResearchCandidateQualificationRecommendation::GenerateMoreWouldSubmitEvidence)
    } else if str_eq(s, "REVIEW_RISK_REJECTIONS") {
        Ok(ResearchCandidateQualificationRecommendation::ReviewRiskRejections)
    } else if str_eq(s, "REDUCE_SHADOW_ERRORS_OR_SKIPS") {
        Ok(ResearchCandidateQualificationRecommendation::ReduceShadowErrorsOrSkips)
    } else if str_eq(s, "RESTORE_TESTNET_SHADOW_READINESS") {
        Ok(ResearchCandidateQualificationRecommendation::RestoreTestnetShadowReadiness)
    } else if str_eq(s, "RE_ACCEPT_CANDIDATE_FOR_SHADOW") {
        Ok(ResearchCandidateQualificationRecommendation::ReAcceptCandidateForShadow)
    } else if str_eq(s, "READY_FOR_TESTNET_PROMOTION_CONSIDERATION") {
        Ok(ResearchCandidateQualificationRecommendation::ReadyForTestnetPromotionConsideration)
    } else {
        Err(UnsupportedName { kind: crate::text::owned("research candidate qualification recommendation"), value: v })
    }
}

/// The source of a research hypothesis.
#[derive(Clone, Copy, Debug, PartialEq, Eq, Structural)]
pub enum ResearchHypothesisSource {
    CampaignFailureAttribution,
    RegimeLeaderboard,
    OpportunityAnalysis,
    SignalFeatureAttribution,
    ExitAttribution,
    DataQuality,
}

/// The research hypothesis source with the given stored name (exactly as stored).
pub open spec fn hypothesis_source_named(n: Seq<char>) -> Option<ResearchHypothesisSource> {
    if n == "CAMPAIGN_FAILURE_ATTRIBUTION"@ {
        Some(ResearchHypothesisSource::CampaignFailureAttribution)
    } else if n == "REGIME_LEADERBOARD"@ {
        Some(ResearchHypothesisSource::RegimeLeaderboard)
    } else if n == "OPPORTUNITY_ANALYSIS"@ {
        Some(ResearchHypothesisSource::OpportunityAnalysis)
    } else if n == "SIGNAL_FEATURE_ATTRIBUTION"@ {
        Some(ResearchHypothesisSource::SignalFeatureAttribution)
    } else if n == "EXIT_ATTRIBUTION"@ {
        Some(ResearchHypothesisSource::ExitAttribution)
    } else if n == "DATA_QUALITY"@ {
        Some(ResearchHypothesisSource::DataQuality)
    } else {
        None
    }
}

/// The research hypothesis source of a stored name; any other name is refused.
pub fn parse_research_hypothesis_source(value: &str) -> (r: Result<ResearchHypothesisSource, UnsupportedName>)
    ensures
        match r {
            Ok(s) => hypothesis_source_named(value@) == Some(s),
            Err(e) => hypothesis_source_named(value@) is None && e.value@ == value@ && e.kind@ == "research hypothesis source"@,
        },
{
    if str_eq(value, "CAMPAIGN_FAILURE_ATTRIBUTION") {
        Ok(ResearchHypothesisSource::CampaignFailureAttribution)
    } else if str_eq(value, "REGIME_LEADERBOARD") {
        Ok(ResearchHypothesisSource::RegimeLeaderboard)
    } else if str_eq(value, "OPPORTUNITY_ANALYSIS") {
        Ok(ResearchHypothesisSource::OpportunityAnalysis)
    } else if str_eq(value, "SIGNAL_FEATURE_ATTRIBUTION") {
        Ok(ResearchHypothesisSource::SignalFeatureAttribution)
    } else if str_eq(value, "EXIT_ATTRIBUTION") {
        Ok(ResearchHypothesisSource::ExitAttribution)
    } else if str_eq(value, "DATA_QUALITY") {
        Ok(ResearchHypothesisSource::DataQuality)
    } else {
        Err(UnsupportedName { kind: crate::text::owned("research hypothesis source"), value: crate::text::owned(value) })
    }
}

/// Where a research hypothesis stands.
#[derive(Clone, Copy, Debug, PartialEq, Eq, Structural)]
pub enum ResearchHypothesisStatus {
    Proposed,
    AcceptedForExperiment,
    Rejected,
    Archived,
}

/// The research hypothesis status with the given stored name (exactly as stored).
pub open spec fn hypothesis_status_named(n: Seq<char>) -> Option<ResearchHypothesisStatus> {
    if n == "PROPOSED"@ {
        Some(ResearchHypothesisStatus::Proposed)
    } else if n == "ACCEPTED_FOR_EXPERIMENT"@ {
        Some(ResearchHypothesisStatus::AcceptedForExperiment)
    } else if n == "REJECTED"@ {
        Some(ResearchHypothesisStatus::Rejected)
    } else if n == "ARCHIVED"@ {
        Some(ResearchHypothesisStatus::Archived)
    } else {
        None
    }
}

/// The research hypothesis status of a stored name; any other name is refused.
pub fn parse_research_hypothesis_status(value: &str) -> (r: Result<ResearchHypothesisStatus, UnsupportedName>)
    ensures
        match r {
            Ok(s) => hypothesis_status_named(value@) == Some(s),
            Err(e) => hypothesis_status_named(value@) is None && e.value@ == value@ && e.kind@ == "research hypothesis status"@,
        },
{
    if str_eq(value, "PROPOSED") {
        Ok(ResearchHypothesisStatus::Proposed)
    } else if str_eq(value, "ACCEPTED_FOR_EXPERIMENT") {
        Ok(ResearchHypothesisStatus::AcceptedForExperiment)
    } else if str_eq(value, "REJECTED") {
        Ok(ResearchHypothesisStatus::Rejected)
    } else if str_eq(value, "ARCHIVED") {
        Ok(ResearchHypothesisStatus::Archived)
    } else {
        Err(UnsupportedName { kind: crate::text::owned("research hypothesis status"), value: crate::text::owned(value) })
    }
}

/// How urgent a research hypothesis is.
#[derive(Clone, Copy, Debug, PartialEq, Eq, Structural)]
pub enum ResearchHypothesisPriority {
    High,
    Medium,
    Low,
}

/// The research hypothesis priority with the given stored name (exactly as stored).
pub open spec fn hypothesis_priority_named(n: Seq<char>) -> Option<ResearchHypothesisPriority> {
    if n == "HIGH"@ {
        Some(ResearchHypothesisPriority::High)
    } else if n == "MEDIUM"@ {
        Some(ResearchHypothesisPriority::Medium)
    } else if n == "LOW"@ {
        Some(ResearchHypothesisPriority::Low)
    } else {
        None
    }
}

/// The research hypothesis priority of a stored name; any other name is refused.
pub fn parse_research_hypothesis_priority(value: &str) -> (r: Result<ResearchHypothesisPriority, UnsupportedName>)
    ensures
        match r {
            Ok(s) => hypothesis_priority_named(value@) == Some(s),
            Err(e) => hypothesis_priority_named(value@) is None && e.value@ == value@ && e.kind@ == "research hypothesis priority"@,
        },
{
    if str_eq(value, "HIGH") {
        Ok(ResearchHypothesisPriority::High)
    } else if str_eq(value, "MEDIUM") {
        Ok(ResearchHypothesisPriority::Medium)
    } else if str_eq(value, "LOW") {
        Ok(ResearchHypothesisPriority::Low)
    } else {
        Err(UnsupportedName { kind: crate::text::owned("research hypothesis priority"), value: crate::text::owned(value) })
    }
}

/// The market regime of a research window.
#[derive(Clone, Copy, Debug, PartialEq, Eq, Structural)]
pub enum ResearchRegimeLabel {
    TrendUp,
    TrendDown,
    Range,
    HighVolatility,
    LowVolatility,
    Mixed,
    Unknown,
}

/// The research regime label with the given stored name (exactly as stored).
pub open spec fn regime_label_named(n: Seq<char>) -> Option<ResearchRegimeLabel> {
    if n == "TREND_UP"@ {
        Some(ResearchRegimeLabel::TrendUp)
    } else if n == "TREND_DOWN"@ {
        Some(ResearchRegimeLabel::TrendDown)
    } else if n == "RANGE"@ {
        Some(ResearchRegimeLabel::Range)
    } else if n == "HIGH_VOLATILITY"@ {
        Some(ResearchRegimeLabel::HighVolatility)
    } else if n == "LOW_VOLATILITY"@ {
        Some(ResearchRegimeLabel::LowVolatility)
    } else if n == "MIXED"@ {
        Some(ResearchRegimeLabel::Mixed)
    } else if n == "UNKNOWN"@ {
        Some(ResearchRegimeLabel::Unknown)
    } else {
        None
    }
}

/// The research regime label of a stored name; any other name is refused.
pub fn parse_research_regime_label(value: &str) -> (r: Result<ResearchRegimeLabel, UnsupportedName>)
    ensures
        match r {
            Ok(s) => regime_label_named(value@) == Some(s),
            Err(e) => regime_label_named(value@) is None && e.value@ == value@ && e.kind@ == "research regime label"@,
        },
{
    if str_eq(value, "TREND_UP") {
        Ok(ResearchRegimeLabel::TrendUp)
    } else if str_eq(value, "TREND_DOWN") {
        Ok(ResearchRegimeLabel::TrendDown)
    } else if str_eq(value, "RANGE") {
        Ok(ResearchRegimeLabel::Range)
    } else if str_eq(value, "HIGH_VOLATILITY") {
        Ok(ResearchRegimeLabel::HighVolatility)
    } else if str_eq(value, "LOW_VOLATILITY") {
        Ok(ResearchRegimeLabel::LowVolatility)
    } else if str_eq(value, "MIXED") {
        Ok(ResearchRegimeLabel::Mixed)
    } else if str_eq(value, "UNKNOWN") {
        Ok(ResearchRegimeLabel::Unknown)
    } else {
        Err(UnsupportedName { kind: crate::text::owned("research regime label"), value: crate::text::owned(value) })
    }
}

/// The lifecycle state of a research candidate.
#[derive(Clone, Copy, Debug, PartialEq, Eq, Structural)]
pub enum ResearchCandidateStatus {
    Discovered,
    Observing,
    AcceptedForShadow,
    PromotedToShadowConfig,
    Rejected,
    Archived,
}

/// The state of a candidate in the older strategy-candidate table.
#[derive(Clone, Copy, Debug, PartialEq, Eq, Structural)]
pub enum StrategyResearchCandidateStatus {
    Registered,
    PromotedToShadowConfig,
    Rejected,
    Archived,
}

/// The older state of a candidate: every state before promotion is `Registered`; the
/// others keep their meaning.
pub open spec fn legacy_status_of(s: ResearchCandidateStatus) -> StrategyResearchCandidateStatus {
    match s {
        ResearchCandidateStatus::Discovered | ResearchCandidateStatus::Observing
        | ResearchCandidateStatus::AcceptedForShadow => StrategyResearchCandidateStatus::Registered,
        ResearchCandidateStatus::PromotedToShadowConfig => StrategyResearchCandidateStatus::PromotedToShadowConfig,
        ResearchCandidateStatus::Rejected => StrategyResearchCandidateStatus::Rejected,
        ResearchCandidateStatus::Archived => StrategyResearchCandidateStatus::Archived,
    }
}

/// The older state of a candidate.
pub fn legacy_status_for_research_candidate(status: ResearchCandidateStatus) -> (r: StrategyResearchCandidateStatus)
    ensures
        r == legacy_status_of(status),
{
    match status {
        ResearchCandidateStatus::Discovered | ResearchCandidateStatus::Observing => StrategyResearchCandidateStatus::Registered,
        ResearchCandidateStatus::AcceptedForShadow => StrategyResearchCandidateStatus::Registered,
        ResearchCandidateStatus::PromotedToShadowConfig => StrategyResearchCandidateStatus::PromotedToShadowConfig,
        ResearchCandidateStatus::Rejected => StrategyResearchCandidateStatus::Rejected,
        ResearchCandidateStatus::Archived => StrategyResearchCandidateStatus::Archived,
    }
}

/// Where a candidate in the older strategy-candidate table came from.
#[derive(Clone, Copy, Debug, PartialEq, Eq, Structural)]
pub enum StrategyResearchCandidateSource {
    ExperimentRun,
    Manual,
}

/// The older source of a candidate: an experiment run where the candidate names one,
/// otherwise a manual entry.
pub fn legacy_source_for_research_candidate(experiment_run_id: Option<Uuid>) -> (r:
    StrategyResearchCandidateSource)
    ensures
        experiment_run_id is Some ==> r == StrategyResearchCandidateSource::ExperimentRun,
        experiment_run_id is None ==> r == StrategyResearchCandidateSource::Manual,
{
    if experiment_run_id.is_some() {
        StrategyResearchCandidateSource::ExperimentRun
    } else {
        StrategyResearchCandidateSource::Manual
    }
}

/// The window and limit of a candidate's shadow PnL attribution: it starts at the
/// requested start (or the candidate's last update), ends at the requested end (or the
/// time of computing), and lists the requested number of runs (100 by default) clamped
/// to 1..=1000.
pub fn shadow_pnl_attribution_window(
    start_time: Option<Timestamp>,
    end_time: Option<Timestamp>,
    limit: Option<i64>,
    candidate_updated_at: Timestamp,
    computed_at: Timestamp,
) -> (w: (Timestamp, Timestamp, i64))
    ensures
        w.0 == (match start_time {
            Some(t) => t,
            None => candidate_updated_at,
        }),
        w.1 == (match end_time {
            Some(t) => t,
            None => computed_at,
        }),
        w.2 == ({
            let l = match limit {
                Some(v) => v as int,
                None => 100int,
            };
            if l < 1 {
                1int
            } else if l > 1000 {
                1000int
            } else {
                l
            }
        }),
{
    let start = match start_time {
        Some(t) => t,
        None => candidate_updated_at,
    };
    let end = match end_time {
        Some(t) => t,
        None => computed_at,
    };
    let requested = match limit {
        Some(v) => v,
        None => 100,
    };
    let bounded = if requested < 1 {
        1
    } else if requested > 1000 {
        1000
    } else {
        requested
    };
    (start, end, bounded)
}

/// The older table keeps how a candidate ended: there it is rejected exactly when it
/// was rejected, archived exactly when archived, and promoted exactly when promoted to a
/// shadow config; every other state is registered.
pub proof fn law_legacy_status_keeps_outcomes(s: ResearchCandidateStatus)
    ensures
        legacy_status_of(s) == StrategyResearchCandidateStatus::Rejected <==> s == ResearchCandidateStatus::Rejected,
        legacy_status_of(s) == StrategyResearchCandidateStatus::Archived <==> s == ResearchCandidateStatus::Archived,
        legacy_status_of(s) == StrategyResearchCandidateStatus::PromotedToShadowConfig
            <==> s == ResearchCandidateStatus::PromotedToShadowConfig,
        legacy_status_of(s) == StrategyResearchCandidateStatus::Registered <==> (s == ResearchCandidateStatus::Discovered
            || s == ResearchCandidateStatus::Observing || s == ResearchCandidateStatus::AcceptedForShadow),
{
}

/// The rejection reason that a review stores on the candidate: the review's reason when
/// the candidate's next status is `Rejected`, and none for any other status.
pub fn review_rejection_reason(next_status: ResearchCandidateStatus, reason: Option<String>) -> (r:
    Option<String>)
    ensures
        r == (if next_status == ResearchCandidateStatus::Rejected {
            reason
        } else {
            None::<String>
        }),
{
    match next_status {
        ResearchCandidateStatus::Rejected => reason,
        _ => None,
    }
}

/// The time from which a shadow run, given as (creation time, signal time), is
/// attributed: its signal's time, or its creation time when it has no signal.
pub open spec fn attribution_time(run: (Timestamp, Option<Timestamp>)) -> Timestamp {
    match run.1 {
        Some(t) => t,
        None => run.0,
    }
}

/// The earliest attribution time of the runs, from which candles are loaded; `None`
/// when there are no runs.
pub fn first_attribution_time(runs: &Vec<(Timestamp, Option<Timestamp>)>) -> (r: Option<Timestamp>)
    ensures
        r is None <==> runs@.len() == 0,
        r matches Some(t) ==> (exists|k: int|
            0 <= k < runs@.len() && #[trigger] attribution_time(runs@[k]) == t),
        r matches Some(t) ==> (forall|k: int|
            0 <= k < runs@.len() ==> ts_le(t, #[trigger] attribution_time(runs@[k]))),
{
    let mut best: Option<Timestamp> = None;
    let mut i: usize = 0;
    while i < runs.len()
        invariant
            i <= runs@.len(),
            best is None <==> i == 0,
            best matches Some(t) ==> (exists|k: int|
                0 <= k < i && #[trigger] attribution_time(runs@[k]) == t),
            best matches Some(t) ==> (forall|k: int|
                0 <= k < i ==> ts_le(t, #[trigger] attribution_time(runs@[k]))),
        decreases runs@.len() - i,
    {
        let (created, signal) = runs[i];
        let t = match signal {
            Some(s) => s,
            None => created,
        };
        proof {
            assert(attribution_time(runs@[i as int]) == t);
        }
        match best {
            None => {
                best = Some(t);
            },
            Some(b) => {
                if t.before(&b) {
                    proof {
                        assert forall|k: int| 0 <= k < i + 1 implies ts_le(t, #[trigger] attribution_time(runs@[k])) by {
                            if k < i {
                                assert(ts_le(b, attribution_time(runs@[k])));
                            }
                        }
                    }
                    best = Some(t);
                }
            },
        }
        i = i + 1;
    }
    best
}

/// Which promoted candidate a shadow run belongs to.
#[derive(Clone, Copy, Debug, PartialEq, Eq)]
pub enum ShadowRunCandidateMatchOutcome {
    NotFound,
    Matched(Uuid),
    Ambiguous,
}

/// The match of a shadow run from the promoted candidates of its strategy, symbol and
/// timeframe, latest promotion first: none without candidates; ambiguous when the two
/// latest were promoted at the same instant; otherwise the latest.
pub fn resolve_shadow_run_candidate(candidates: &Vec<(Uuid, Timestamp)>) -> (r: ShadowRunCandidateMatchOutcome)
    ensures
        candidates@.len() == 0 ==> r == ShadowRunCandidateMatchOutcome::NotFound,
        candidates@.len() > 1 && candidates@[1].1 == candidates@[0].1 ==> r == ShadowRunCandidateMatchOutcome::Ambiguous,
        candidates@.len() == 1 || (candidates@.len() > 1 && candidates@[1].1 != candidates@[0].1)
            ==> r == ShadowRunCandidateMatchOutcome::Matched(candidates@[0].0),
{
    if candidates.len() == 0 {
        return ShadowRunCandidateMatchOutcome::NotFound;
    }
    let (first_id, first_promoted_at) = candidates[0];
    if candidates.len() > 1 {
        let second_promoted_at = candidates[1].1;
        if second_promoted_at == first_promoted_at {
            return ShadowRunCandidateMatchOutcome::Ambiguous;
        }
    }
    ShadowRunCandidateMatchOutcome::Matched(first_id)
}

/// Filters of a candidate listing.
#[derive(Default)]
pub struct StrategyResearchCandidateListFilters {
    pub strategy_id: Option<String>,
    pub symbol: Option<String>,
    pub timeframe: Option<String>,
    pub status: Option<String>,
}

/// Filters of a candidate listing.
#[derive(Default)]
pub struct ResearchCandidateListFilters {
    pub strategy_id: Option<String>,
    pub symbol: Option<String>,
    pub timeframe: Option<String>,
    pub status: Option<String>,
}

} // verus!
