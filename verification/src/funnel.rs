//! The testnet promotion funnel: from shadow runs that would have submitted,
//! through promotion previews and submissions, to exchange outcomes.
use crate::decimal::{opt_parts, Dec};
use crate::text::{owned, str_eq};
use crate::timestamp::{total_nanos, Timestamp};
use uuid::Uuid;
use vstd::prelude::*;

verus! {

/// Default number of funnel rows listed.
pub const TESTNET_PROMOTION_FUNNEL_DEFAULT_LIMIT: i64 = 100i64;

/// Largest number of funnel rows listed.
pub const TESTNET_PROMOTION_FUNNEL_MAX_LIMIT: i64 = 1000i64;

/// The limit for listing funnel rows: a positive request capped at the maximum, the
/// default otherwise.
pub fn bounded_testnet_promotion_funnel_limit(limit: Option<i64>) -> (l: i64)
    ensures
        l == (match limit {
            Some(v) => if v > 0 {
                if v < TESTNET_PROMOTION_FUNNEL_MAX_LIMIT { v } else { TESTNET_PROMOTION_FUNNEL_MAX_LIMIT }
            } else {
                TESTNET_PROMOTION_FUNNEL_DEFAULT_LIMIT
            },
            None => TESTNET_PROMOTION_FUNNEL_DEFAULT_LIMIT,
        }),
        1 <= l <= TESTNET_PROMOTION_FUNNEL_MAX_LIMIT,
{
    match limit {
        Some(value) => if value > 0 {
            if value < TESTNET_PROMOTION_FUNNEL_MAX_LIMIT {
                value
            } else {
                TESTNET_PROMOTION_FUNNEL_MAX_LIMIT
            }
        } else {
            TESTNET_PROMOTION_FUNNEL_DEFAULT_LIMIT
        },
        None => TESTNET_PROMOTION_FUNNEL_DEFAULT_LIMIT,
    }
}

/// The lifecycle state of a testnet order on the exchange.
#[derive(Clone, Copy, Debug, PartialEq, Eq, Structural)]
pub enum TestnetExecutionState {
    ExchangeAcked,
    PartiallyFilled,
    Filled,
    Cancelled,
    Rejected,
    Expired,
    ReconciliationRequired,
    UnknownExchangeState,
    Failed,
}

/// The stored name of a state.
pub open spec fn execution_state_name(s: TestnetExecutionState) -> Seq<char> {
    match s {
        TestnetExecutionState::ExchangeAcked => "EXCHANGE_ACKED"@,
        TestnetExecutionState::PartiallyFilled => "PARTIALLY_FILLED"@,
        TestnetExecutionState::Filled => "FILLED"@,
        TestnetExecutionState::Cancelled => "CANCELLED"@,
        TestnetExecutionState::Rejected => "REJECTED"@,
        TestnetExecutionState::Expired => "EXPIRED"@,
        TestnetExecutionState::ReconciliationRequired => "RECONCILIATION_REQUIRED"@,
        TestnetExecutionState::UnknownExchangeState => "UNKNOWN_EXCHANGE_STATE"@,
        TestnetExecutionState::Failed => "FAILED"@,
    }
}

impl TestnetExecutionState {
    /// The stored name of the state.
    pub fn as_str(&self) -> (s: String)
        ensures
            s@ == execution_state_name(*self),
    {
        match self {
            TestnetExecutionState::ExchangeAcked => owned("EXCHANGE_ACKED"),
            TestnetExecutionState::PartiallyFilled => owned("PARTIALLY_FILLED"),
            TestnetExecutionState::Filled => owned("FILLED"),
            TestnetExecutionState::Cancelled => owned("CANCELLED"),
            TestnetExecutionState::Rejected => owned("REJECTED"),
            TestnetExecutionState::Expired => owned("EXPIRED"),
            TestnetExecutionState::ReconciliationRequired => owned("RECONCILIATION_REQUIRED"),
            TestnetExecutionState::UnknownExchangeState => owned("UNKNOWN_EXCHANGE_STATE"),
            TestnetExecutionState::Failed => owned("FAILED"),
        }
    }

    /// The state with the given stored name, if any.
    pub fn parse(s: &str) -> (r: Option<TestnetExecutionState>)
        ensures
            r is Some ==> execution_state_name(r->0) == s@,
            r is None ==> forall|x: TestnetExecutionState| execution_state_name(x) != s@,
    {
        if str_eq(s, "EXCHANGE_ACKED") {
            Some(TestnetExecutionState::ExchangeAcked)
        } else if str_eq(s, "PARTIALLY_FILLED") {
            Some(TestnetExecutionState::PartiallyFilled)
        } else if str_eq(s, "FILLED") {
            Some(TestnetExecutionState::Filled)
        } else if str_eq(s, "CANCELLED") {
            Some(TestnetExecutionState::Cancelled)
        } else if str_eq(s, "REJECTED") {
            Some(TestnetExecutionState::Rejected)
        } else if str_eq(s, "EXPIRED") {
            Some(TestnetExecutionState::Expired)
        } else if str_eq(s, "RECONCILIATION_REQUIRED") {
            Some(TestnetExecutionState::ReconciliationRequired)
        } else if str_eq(s, "UNKNOWN_EXCHANGE_STATE") {
            Some(TestnetExecutionState::UnknownExchangeState)
        } else if str_eq(s, "FAILED") {
            Some(TestnetExecutionState::Failed)
        } else {
            None
        }
    }
}

/// Which part of the funnel to summarise.
#[derive(Debug)]
pub struct TestnetPromotionFunnelRequest {
    pub strategy_id: Option<String>,
    pub symbol: Option<String>,
    pub timeframe: Option<String>,
    pub start_time: Option<Timestamp>,
    pub end_time: Option<Timestamp>,
    pub limit: Option<i64>,
}

/// One shadow run that would have submitted, joined with its promotion, its testnet
/// order and that order's lifecycle.
#[derive(Debug)]
pub struct TestnetPromotionFunnelMaterializedRow {
    pub shadow_run_id: Uuid,
    pub promotion_id: Option<Uuid>,
    pub strategy_id: String,
    pub symbol: String,
    pub timeframe: String,
    pub promotion_status: Option<String>,
    pub promotion_rejection_reasons: Vec<String>,
    pub testnet_order_id: Option<Uuid>,
    pub client_order_id: Option<String>,
    pub effective_execution_state: Option<TestnetExecutionState>,
    pub linked_order_missing: bool,
    pub shadow_created_at: Timestamp,
    pub promotion_created_at: Option<Timestamp>,
    pub submitted_at: Option<Timestamp>,
    pub acked_at: Option<Timestamp>,
    pub last_lifecycle_at: Option<Timestamp>,
}

/// Each state has a stored name of its own, so `parse` gives back the state whose name
/// `as_str` wrote.
pub proof fn law_execution_state_names_distinct(a: TestnetExecutionState, b: TestnetExecutionState)
    requires
        execution_state_name(a) == execution_state_name(b),
    ensures
        a == b,
{
    reveal_strlit("EXCHANGE_ACKED");
    reveal_strlit("PARTIALLY_FILLED");
    reveal_strlit("FILLED");
    reveal_strlit("CANCELLED");
    reveal_strlit("REJECTED");
    reveal_strlit("EXPIRED");
    reveal_strlit("RECONCILIATION_REQUIRED");
    reveal_strlit("UNKNOWN_EXCHANGE_STATE");
    reveal_strlit("FAILED");
    let na = execution_state_name(a);
    let nb = execution_state_name(b);
    assert(na.len() == nb.len());
    assert(na[0] == nb[0]);
    if na.len() > 1 {
        assert(na[1] == nb[1]);
    }
}

/// The row counts as submitted: it has a submission time, a client order id or a
/// testnet order id.
pub open spec fn counts_as_submitted(r: TestnetPromotionFunnelMaterializedRow) -> bool {
    r.submitted_at is Some || r.client_order_id is Some || r.testnet_order_id is Some
}

/// The row led to a testnet order: it has a client order id or a testnet order id.
pub open spec fn created_order(r: TestnetPromotionFunnelMaterializedRow) -> bool {
    r.client_order_id is Some || r.testnet_order_id is Some
}

/// The promotion has the given status.
pub open spec fn has_status(r: TestnetPromotionFunnelMaterializedRow, status: Seq<char>) -> bool {
    r.promotion_status is Some && r.promotion_status->0@ == status
}

/// The promotion was rejected as a duplicate: its status is `ALREADY_PROMOTED`, or one of
/// its rejection reasons is `duplicate_submit` or `already_promoted`.
pub open spec fn counts_as_duplicate_rejected(r: TestnetPromotionFunnelMaterializedRow) -> bool {
    ||| has_status(r, "ALREADY_PROMOTED"@)
    ||| exists|k: int|
        0 <= k < r.promotion_rejection_reasons@.len() && (#[trigger] r.promotion_rejection_reasons@[k]@
            == "duplicate_submit"@ || r.promotion_rejection_reasons@[k]@ == "already_promoted"@)
}

/// The row's order ended in the given state.
pub open spec fn in_state(r: TestnetPromotionFunnelMaterializedRow, s: TestnetExecutionState) -> bool {
    r.effective_execution_state == Some(s)
}

/// Whether a row counts as submitted.
pub fn row_counts_as_submitted(row: &TestnetPromotionFunnelMaterializedRow) -> (b: bool)
    ensures
        b == counts_as_submitted(*row),
{
    row.submitted_at.is_some() || row.client_order_id.is_some() || row.testnet_order_id.is_some()
}

fn status_is(row: &TestnetPromotionFunnelMaterializedRow, status: &str) -> (b: bool)
    ensures
        b == has_status(*row, status@),
{
    match &row.promotion_status {
        Some(s) => str_eq(s.as_str(), status),
        None => false,
    }
}

/// Whether a row's promotion was rejected as a duplicate.
pub fn row_counts_as_duplicate_rejected(row: &TestnetPromotionFunnelMaterializedRow) -> (b: bool)
    ensures
        b == counts_as_duplicate_rejected(*row),
{
    if status_is(row, "ALREADY_PROMOTED") {
        return true;
    }
    let reasons = &row.promotion_rejection_reasons;
    let mut k: usize = 0;
    while k < reasons.len()
        invariant
            k <= reasons@.len(),
            reasons == row.promotion_rejection_reasons,
            !has_status(*row, "ALREADY_PROMOTED"@),
            forall|j: int|
                0 <= j < k ==> !(#[trigger] reasons@[j]@ == "duplicate_submit"@ || reasons@[j]@
                    == "already_promoted"@),
        decreases reasons@.len() - k,
    {
        if str_eq(reasons[k].as_str(), "duplicate_submit") || str_eq(
            reasons[k].as_str(),
            "already_promoted",
        ) {
            return true;
        }
        k = k + 1;
    }
    false
}

/// How many rows satisfy `p`.
pub open spec fn count_rows(
    rows: Seq<TestnetPromotionFunnelMaterializedRow>,
    p: spec_fn(TestnetPromotionFunnelMaterializedRow) -> bool,
) -> nat
    decreases rows.len(),
{
    if rows.len() == 0 {
        0
    } else {
        count_rows(rows.drop_last(), p) + if p(rows.last()) {
            1nat
        } else {
            0nat
        }
    }
}

proof fn lemma_count_rows_bound(
    rows: Seq<TestnetPromotionFunnelMaterializedRow>,
    p: spec_fn(TestnetPromotionFunnelMaterializedRow) -> bool,
)
    ensures
        count_rows(rows, p) <= rows.len(),
    decreases rows.len(),
{
    if rows.len() > 0 {
        lemma_count_rows_bound(rows.drop_last(), p);
    }
}

/// The whole milliseconds from `start` to `end` as a signed duration truncated toward
/// zero; absent when that is negative.
pub open spec fn duration_millis_of(start: Timestamp, end: Timestamp) -> Option<int> {
    let d = total_nanos(end) - total_nanos(start);
    if d <= -1_000_000 {
        None
    } else if d < 0 {
        Some(0int)
    } else {
        Some(d / 1_000_000)
    }
}

/// The milliseconds from `start` to `end`, absent when negative.
pub fn duration_millis(start: Timestamp, end: Timestamp) -> (r: Option<i64>)
    ensures
        match r {
            Some(v) => duration_millis_of(start, end) == Some(v as int) && 0 <= v <= max_duration_millis(),
            None => duration_millis_of(start, end) is None,
        },
{
    let d: i128 = end.nanos_since(&start);

    if d <= -1_000_000 {
        None
    } else if d < 0 {
        Some(0)
    } else {
        proof {
            assert(d / 1_000_000 <= 20_000_000_000_002_000) by (nonlinear_arith)
                requires 0 <= d <= 20_000_000_000_000_000_000_000 + 2_000_000_000;
        }
        Some((d / 1_000_000) as i64)
    }
}

/// `a / d` rounded to the nearest whole number, ties to even.
pub open spec fn round_half_even(a: int, d: int) -> int {
    let q = a / d;
    let r = a % d;
    if 2 * r > d || (2 * r == d && q % 2 == 1) {
        q + 1
    } else {
        q
    }
}

/// `numerator / denominator` in percent with two decimals (rounded half to even), as a
/// mantissa at scale 2; zero without a positive denominator.
pub open spec fn rate_mantissa(numerator: int, denominator: int) -> int {
    if denominator <= 0 {
        0
    } else if numerator >= 0 {
        round_half_even(numerator * 10000, denominator)
    } else {
        -round_half_even(-numerator * 10000, denominator)
    }
}

proof fn lemma_round_half_even_bound(a: int, d: int)
    requires
        a >= 0,
        d > 0,
    ensures
        0 <= round_half_even(a, d) <= a,
{
    assert(a / d <= a) by (nonlinear_arith)
        requires
            a >= 0,
            d > 0,
    {
    }
    if a / d == a && a > 0 {
        assert(d == 1) by (nonlinear_arith)
            requires
                a > 0,
                d > 0,
                a / d == a,
        {
        }
    }
}

/// The rate `numerator / denominator` in percent, two decimals, zero when the
/// denominator is not positive.
pub fn promotion_rate(numerator: i64, denominator: i64) -> (r: Dec)
    ensures
        r@ == (rate_mantissa(numerator as int, denominator as int), 2int),
{
    if denominator <= 0 {
        return Dec::from_parts(0, 2).unwrap();
    }
    let neg = numerator < 0;
    let a: i128 = if neg { -(numerator as i128) } else { numerator as i128 } * 10000;
    let d: i128 = denominator as i128;
    let q = a / d;
    let rem = a % d;
    let rounded = if 2 * rem > d || (2 * rem == d && q % 2 == 1) {
        q + 1
    } else {
        q
    };
    proof {
        lemma_round_half_even_bound(a as int, d as int);
    }
    let m = if neg { -rounded } else { rounded };
    Dec::from_parts(m, 2).unwrap()
}

/// The mean of `total` milliseconds over `samples`, rounded half to even to whole
/// milliseconds, in seconds (scale 3); absent without samples.
pub open spec fn average_seconds_of(total_millis: int, samples: int) -> Option<(int, int)> {
    if samples <= 0 {
        None
    } else {
        Some((round_half_even(total_millis, samples), 3int))
    }
}

/// The average of the summed milliseconds over the samples, in seconds.
pub fn average_duration_seconds(total_millis: i128, samples: i64) -> (r: Option<Dec>)
    requires
        0 <= total_millis,
        samples > 0 ==> round_half_even(total_millis as int, samples as int) <= crate::decimal::MAX_MANTISSA,
    ensures
        opt_parts(r) == average_seconds_of(total_millis as int, samples as int),
{
    if samples <= 0 {
        return None;
    }
    let d = samples as i128;
    let q = total_millis / d;
    let rem = total_millis % d;
    let rounded = if 2 * rem > d || (2 * rem == d && q % 2 == 1) {
        q + 1
    } else {
        q
    };
    Some(Dec::from_parts(rounded, 3).unwrap())
}


/// One stage of the funnel and its conversion from the previous stage.
#[derive(Debug)]
pub struct TestnetPromotionFunnelStage {
    pub stage: String,
    pub count: i64,
    pub rate_pct: Dec,
}

/// How many dropped out between two stages.
#[derive(Debug)]
pub struct TestnetPromotionDropoffBreakdown {
    pub stage: String,
    pub dropped_count: i64,
    pub dropoff_rate_pct: Dec,
}

/// How often one outcome occurred among the shadow runs.
#[derive(Debug)]
pub struct TestnetPromotionOutcomeBreakdown {
    pub outcome: String,
    pub count: i64,
    pub rate_pct: Dec,
}

/// How often one lifecycle state occurred among the testnet orders.
#[derive(Debug)]
pub struct TestnetPromotionLifecycleBreakdown {
    pub execution_state: String,
    pub count: i64,
    pub rate_pct: Dec,
}

/// A headline rate with its numerator and denominator.
#[derive(Debug)]
pub struct TestnetPromotionQualitySignal {
    pub signal: String,
    pub value_pct: Dec,
    pub numerator: i64,
    pub denominator: i64,
}

/// The promotion funnel over a window.
#[derive(Debug)]
pub struct TestnetPromotionFunnelSummary {
    pub strategy_id: Option<String>,
    pub symbol: Option<String>,
    pub timeframe: Option<String>,
    pub window_start: Option<Timestamp>,
    pub window_end: Option<Timestamp>,
    pub shadow_would_submit_count: i64,
    pub promotion_previewed_count: i64,
    pub promotion_submitted_count: i64,
    pub promotion_rejected_count: i64,
    pub promotion_expired_count: i64,
    pub promotion_duplicate_rejected_count: i64,
    pub testnet_orders_created_count: i64,
    pub acked_count: i64,
    pub filled_count: i64,
    pub partially_filled_count: i64,
    pub cancelled_count: i64,
    pub rejected_count: i64,
    pub expired_count: i64,
    pub reconciliation_required_count: i64,
    pub unknown_exchange_state_count: i64,
    pub failed_count: i64,
    pub preview_rate_pct: Dec,
    pub submit_rate_pct: Dec,
    pub ack_rate_pct: Dec,
    pub fill_rate_pct: Dec,
    pub reconciliation_required_rate_pct: Dec,
    pub avg_time_shadow_to_preview_seconds: Option<Dec>,
    pub avg_time_preview_to_submit_seconds: Option<Dec>,
    pub stages: Vec<TestnetPromotionFunnelStage>,
    pub outcome_breakdown: Vec<TestnetPromotionOutcomeBreakdown>,
    pub dropoff_breakdown: Vec<TestnetPromotionDropoffBreakdown>,
    pub lifecycle_breakdown: Vec<TestnetPromotionLifecycleBreakdown>,
    pub quality_signals: Vec<TestnetPromotionQualitySignal>,
    pub computed_at: Timestamp,
}

/// The rate at two decimals, by parts.
pub open spec fn rate_parts(numerator: int, denominator: int) -> (int, int) {
    (rate_mantissa(numerator, denominator), 2int)
}

fn clone_opt_string(s: &Option<String>) -> (r: Option<String>)
    ensures
        crate::derivatives::opt_string_view(r) == crate::derivatives::opt_string_view(*s),
{
    match s {
        Some(v) => Some(v.clone()),
        None => None,
    }
}

/// A summary with every count zero, every rate zero and no breakdowns.
pub fn empty_testnet_promotion_funnel_summary(
    request: &TestnetPromotionFunnelRequest,
    computed_at: Timestamp,
) -> (s: TestnetPromotionFunnelSummary)
    ensures
        summary_echoes_request(s, *request, computed_at),
        s.shadow_would_submit_count == 0 && s.promotion_previewed_count == 0
            && s.promotion_submitted_count == 0 && s.promotion_rejected_count == 0
            && s.promotion_expired_count == 0 && s.promotion_duplicate_rejected_count == 0
            && s.testnet_orders_created_count == 0 && s.acked_count == 0 && s.filled_count == 0
            && s.partially_filled_count == 0 && s.cancelled_count == 0 && s.rejected_count == 0
            && s.expired_count == 0 && s.reconciliation_required_count == 0
            && s.unknown_exchange_state_count == 0 && s.failed_count == 0,
        s.preview_rate_pct@ == (0int, 0int) && s.submit_rate_pct@ == (0int, 0int)
            && s.ack_rate_pct@ == (0int, 0int) && s.fill_rate_pct@ == (0int, 0int)
            && s.reconciliation_required_rate_pct@ == (0int, 0int),
        s.avg_time_shadow_to_preview_seconds is None,
        s.avg_time_preview_to_submit_seconds is None,
        s.stages@.len() == 0 && s.outcome_breakdown@.len() == 0 && s.dropoff_breakdown@.len() == 0
            && s.lifecycle_breakdown@.len() == 0 && s.quality_signals@.len() == 0,
{
    TestnetPromotionFunnelSummary {
        strategy_id: clone_opt_string(&request.strategy_id),
        symbol: clone_opt_string(&request.symbol),
        timeframe: clone_opt_string(&request.timeframe),
        window_start: request.start_time,
        window_end: request.end_time,
        shadow_would_submit_count: 0,
        promotion_previewed_count: 0,
        promotion_submitted_count: 0,
        promotion_rejected_count: 0,
        promotion_expired_count: 0,
        promotion_duplicate_rejected_count: 0,
        testnet_orders_created_count: 0,
        acked_count: 0,
        filled_count: 0,
        partially_filled_count: 0,
        cancelled_count: 0,
        rejected_count: 0,
        expired_count: 0,
        reconciliation_required_count: 0,
        unknown_exchange_state_count: 0,
        failed_count: 0,
        preview_rate_pct: Dec::zero(),
        submit_rate_pct: Dec::zero(),
        ack_rate_pct: Dec::zero(),
        fill_rate_pct: Dec::zero(),
        reconciliation_required_rate_pct: Dec::zero(),
        avg_time_shadow_to_preview_seconds: None,
        avg_time_preview_to_submit_seconds: None,
        stages: Vec::new(),
        outcome_breakdown: Vec::new(),
        dropoff_breakdown: Vec::new(),
        lifecycle_breakdown: Vec::new(),
        quality_signals: Vec::new(),
        computed_at,
    }
}

/// The summary carries the request's filters and window and the computation time.
pub open spec fn summary_echoes_request(
    s: TestnetPromotionFunnelSummary,
    request: TestnetPromotionFunnelRequest,
    computed_at: Timestamp,
) -> bool {
    &&& crate::derivatives::opt_string_view(s.strategy_id) == crate::derivatives::opt_string_view(request.strategy_id)
    &&& crate::derivatives::opt_string_view(s.symbol) == crate::derivatives::opt_string_view(request.symbol)
    &&& crate::derivatives::opt_string_view(s.timeframe) == crate::derivatives::opt_string_view(request.timeframe)
    &&& s.window_start == request.start_time
    &&& s.window_end == request.end_time
    &&& s.computed_at == computed_at
}

/// The funnel stages: shadow runs (100% when any), previews over shadow runs,
/// submissions over previews, acks over created orders, fills over acks, and
/// reconciliation over created orders.
pub open spec fn stages_of(s: TestnetPromotionFunnelSummary) -> Seq<(Seq<char>, int, (int, int))> {
    seq![
        ("shadow_would_submit"@, s.shadow_would_submit_count as int, if s.shadow_would_submit_count > 0 { (100int, 0int) } else { (0int, 0int) }),
        ("promotion_previewed"@, s.promotion_previewed_count as int, rate_parts(s.promotion_previewed_count as int, s.shadow_would_submit_count as int)),
        ("promotion_submitted"@, s.promotion_submitted_count as int, rate_parts(s.promotion_submitted_count as int, s.promotion_previewed_count as int)),
        ("acked"@, s.acked_count as int, rate_parts(s.acked_count as int, s.testnet_orders_created_count as int)),
        ("filled"@, s.filled_count as int, rate_parts(s.filled_count as int, s.acked_count as int)),
        ("reconciliation_required"@, s.reconciliation_required_count as int, rate_parts(s.reconciliation_required_count as int, s.testnet_orders_created_count as int)),
    ]
}

fn stage(name: &str, count: i64, rate_pct: Dec) -> (r: TestnetPromotionFunnelStage)
    ensures
        r.stage@ == name@ && r.count == count && r.rate_pct == rate_pct,
{
    TestnetPromotionFunnelStage { stage: owned(name), count, rate_pct }
}

/// The stage breakdown of a summary.
pub fn build_testnet_promotion_funnel_stage_breakdown(s: &TestnetPromotionFunnelSummary) -> (r: Vec<
    TestnetPromotionFunnelStage,
>)
    ensures
        r@.len() == stages_of(*s).len(),
        forall|k: int|
            0 <= k < r@.len() ==> (#[trigger] r@[k]).stage@ == stages_of(*s)[k].0 && r@[k].count
                == stages_of(*s)[k].1 && r@[k].rate_pct@ == stages_of(*s)[k].2,
{
    let mut v: Vec<TestnetPromotionFunnelStage> = Vec::new();
    let first = if s.shadow_would_submit_count > 0 {
        Dec::from_int(100)
    } else {
        Dec::zero()
    };
    v.push(stage("shadow_would_submit", s.shadow_would_submit_count, first));
    v.push(stage("promotion_previewed", s.promotion_previewed_count, promotion_rate(s.promotion_previewed_count, s.shadow_would_submit_count)));
    v.push(stage("promotion_submitted", s.promotion_submitted_count, promotion_rate(s.promotion_submitted_count, s.promotion_previewed_count)));
    v.push(stage("acked", s.acked_count, promotion_rate(s.acked_count, s.testnet_orders_created_count)));
    v.push(stage("filled", s.filled_count, promotion_rate(s.filled_count, s.acked_count)));
    v.push(stage("reconciliation_required", s.reconciliation_required_count, promotion_rate(s.reconciliation_required_count, s.testnet_orders_created_count)));
    v
}

/// `a - b`, or zero when that is negative.
pub open spec fn dropped(a: int, b: int) -> int {
    if a - b > 0 {
        a - b
    } else {
        0
    }
}

/// The drop-off between consecutive stages, each over the earlier stage.
pub open spec fn dropoffs_of(s: TestnetPromotionFunnelSummary) -> Seq<(Seq<char>, int, (int, int))> {
    let sw = s.shadow_would_submit_count as int;
    let pv = s.promotion_previewed_count as int;
    let sb = s.promotion_submitted_count as int;
    let ak = s.acked_count as int;
    let fl = s.filled_count as int;
    seq![
        ("shadow_to_preview"@, dropped(sw, pv), rate_parts(dropped(sw, pv), sw)),
        ("preview_to_submit"@, dropped(pv, sb), rate_parts(dropped(pv, sb), pv)),
        ("submit_to_ack"@, dropped(sb, ak), rate_parts(dropped(sb, ak), sb)),
        ("ack_to_fill"@, dropped(ak, fl), rate_parts(dropped(ak, fl), ak)),
    ]
}

fn dropped_count(a: i64, b: i64) -> (d: i64)
    requires
        i64::MIN <= a - b <= i64::MAX,
    ensures
        d == dropped(a as int, b as int),
{
    if a - b > 0 {
        a - b
    } else {
        0
    }
}

fn dropoff(name: &str, count: i64, rate: Dec) -> (r: TestnetPromotionDropoffBreakdown)
    ensures
        r.stage@ == name@ && r.dropped_count == count && r.dropoff_rate_pct == rate,
{
    TestnetPromotionDropoffBreakdown { stage: owned(name), dropped_count: count, dropoff_rate_pct: rate }
}

/// The difference of `a` and `b` fits in an `i64`.
pub open spec fn difference_fits(a: i64, b: i64) -> bool {
    i64::MIN <= a - b <= i64::MAX
}

/// The differences of consecutive stage counts fit in an `i64`.
pub open spec fn stage_differences_fit(s: TestnetPromotionFunnelSummary) -> bool {
    &&& difference_fits(s.shadow_would_submit_count, s.promotion_previewed_count)
    &&& difference_fits(s.promotion_previewed_count, s.promotion_submitted_count)
    &&& difference_fits(s.promotion_submitted_count, s.acked_count)
    &&& difference_fits(s.acked_count, s.filled_count)
}

/// The drop-off breakdown of a summary.
pub fn build_testnet_promotion_dropoff_breakdown(s: &TestnetPromotionFunnelSummary) -> (r: Vec<
    TestnetPromotionDropoffBreakdown,
>)
    requires
        stage_differences_fit(*s),
    ensures
        r@.len() == dropoffs_of(*s).len(),
        forall|k: int|
            0 <= k < r@.len() ==> (#[trigger] r@[k]).stage@ == dropoffs_of(*s)[k].0
                && r@[k].dropped_count == dropoffs_of(*s)[k].1 && r@[k].dropoff_rate_pct@
                == dropoffs_of(*s)[k].2,
{
    let shadow_to_preview = dropped_count(s.shadow_would_submit_count, s.promotion_previewed_count);
    let preview_to_submit = dropped_count(s.promotion_previewed_count, s.promotion_submitted_count);
    let submit_to_ack = dropped_count(s.promotion_submitted_count, s.acked_count);
    let ack_to_fill = dropped_count(s.acked_count, s.filled_count);
    let mut v: Vec<TestnetPromotionDropoffBreakdown> = Vec::new();
    v.push(dropoff("shadow_to_preview", shadow_to_preview, promotion_rate(shadow_to_preview, s.shadow_would_submit_count)));
    v.push(dropoff("preview_to_submit", preview_to_submit, promotion_rate(preview_to_submit, s.promotion_previewed_count)));
    v.push(dropoff("submit_to_ack", submit_to_ack, promotion_rate(submit_to_ack, s.promotion_submitted_count)));
    v.push(dropoff("ack_to_fill", ack_to_fill, promotion_rate(ack_to_fill, s.acked_count)));
    v
}

/// The outcomes, each over the shadow runs.
pub open spec fn outcomes_of(s: TestnetPromotionFunnelSummary) -> Seq<(Seq<char>, int, (int, int))> {
    let d = s.shadow_would_submit_count as int;
    seq![
        ("promotion_rejected"@, s.promotion_rejected_count as int, rate_parts(s.promotion_rejected_count as int, d)),
        ("promotion_expired"@, s.promotion_expired_count as int, rate_parts(s.promotion_expired_count as int, d)),
        ("filled"@, s.filled_count as int, rate_parts(s.filled_count as int, d)),
        ("partially_filled"@, s.partially_filled_count as int, rate_parts(s.partially_filled_count as int, d)),
        ("cancelled"@, s.cancelled_count as int, rate_parts(s.cancelled_count as int, d)),
        ("rejected"@, s.rejected_count as int, rate_parts(s.rejected_count as int, d)),
        ("expired"@, s.expired_count as int, rate_parts(s.expired_count as int, d)),
        ("reconciliation_required"@, s.reconciliation_required_count as int, rate_parts(s.reconciliation_required_count as int, d)),
        ("unknown_exchange_state"@, s.unknown_exchange_state_count as int, rate_parts(s.unknown_exchange_state_count as int, d)),
        ("failed"@, s.failed_count as int, rate_parts(s.failed_count as int, d)),
    ]
}

fn outcome_entry(name: &str, count: i64, denominator: i64) -> (r: TestnetPromotionOutcomeBreakdown)
    ensures
        r.outcome@ == name@ && r.count == count && r.rate_pct@ == rate_parts(count as int, denominator as int),
{
    TestnetPromotionOutcomeBreakdown { outcome: owned(name), count, rate_pct: promotion_rate(count, denominator) }
}

/// The outcome breakdown of a summary.
pub fn build_testnet_promotion_outcome_breakdown(s: &TestnetPromotionFunnelSummary) -> (r: Vec<
    TestnetPromotionOutcomeBreakdown,
>)
    ensures
        r@.len() == outcomes_of(*s).len(),
        forall|k: int|
            0 <= k < r@.len() ==> (#[trigger] r@[k]).outcome@ == outcomes_of(*s)[k].0 && r@[k].count
                == outcomes_of(*s)[k].1 && r@[k].rate_pct@ == outcomes_of(*s)[k].2,
{
    let d = s.shadow_would_submit_count;
    let mut v: Vec<TestnetPromotionOutcomeBreakdown> = Vec::new();
    v.push(outcome_entry("promotion_rejected", s.promotion_rejected_count, d));
    v.push(outcome_entry("promotion_expired", s.promotion_expired_count, d));
    v.push(outcome_entry("filled", s.filled_count, d));
    v.push(outcome_entry("partially_filled", s.partially_filled_count, d));
    v.push(outcome_entry("cancelled", s.cancelled_count, d));
    v.push(outcome_entry("rejected", s.rejected_count, d));
    v.push(outcome_entry("expired", s.expired_count, d));
    v.push(outcome_entry("reconciliation_required", s.reconciliation_required_count, d));
    v.push(outcome_entry("unknown_exchange_state", s.unknown_exchange_state_count, d));
    v.push(outcome_entry("failed", s.failed_count, d));
    v
}

/// `e` has an entry named `name`, and every entry of that name carries `count`, rated
/// over `d`.
pub open spec fn has_outcome(e: Seq<(Seq<char>, int, (int, int))>, name: Seq<char>, count: int, d: int) -> bool {
    &&& exists|k: int| 0 <= k < e.len() && (#[trigger] e[k]).0 == name
    &&& forall|k: int|
        0 <= k < e.len() && (#[trigger] e[k]).0 == name ==> e[k].1 == count && e[k].2 == rate_parts(count, d)
}

/// Each outcome's entry carries that outcome's own count from the summary, rated over
/// the shadow runs that would have submitted: `filled` the filled orders,
/// `partially_filled` the partially filled ones, and so on for all ten outcomes.
pub proof fn law_outcome_entries_carry_their_counts(s: TestnetPromotionFunnelSummary)
    ensures
        has_outcome(outcomes_of(s), "promotion_rejected"@, s.promotion_rejected_count as int, s.shadow_would_submit_count as int),
        has_outcome(outcomes_of(s), "promotion_expired"@, s.promotion_expired_count as int, s.shadow_would_submit_count as int),
        has_outcome(outcomes_of(s), "filled"@, s.filled_count as int, s.shadow_would_submit_count as int),
        has_outcome(outcomes_of(s), "partially_filled"@, s.partially_filled_count as int, s.shadow_would_submit_count as int),
        has_outcome(outcomes_of(s), "cancelled"@, s.cancelled_count as int, s.shadow_would_submit_count as int),
        has_outcome(outcomes_of(s), "rejected"@, s.rejected_count as int, s.shadow_would_submit_count as int),
        has_outcome(outcomes_of(s), "expired"@, s.expired_count as int, s.shadow_would_submit_count as int),
        has_outcome(outcomes_of(s), "reconciliation_required"@, s.reconciliation_required_count as int, s.shadow_would_submit_count as int),
        has_outcome(outcomes_of(s), "unknown_exchange_state"@, s.unknown_exchange_state_count as int, s.shadow_would_submit_count as int),
        has_outcome(outcomes_of(s), "failed"@, s.failed_count as int, s.shadow_would_submit_count as int),
{
    reveal_strlit("promotion_rejected");
    reveal_strlit("promotion_expired");
    reveal_strlit("filled");
    reveal_strlit("partially_filled");
    reveal_strlit("cancelled");
    reveal_strlit("rejected");
    reveal_strlit("expired");
    reveal_strlit("reconciliation_required");
    reveal_strlit("unknown_exchange_state");
    reveal_strlit("failed");
    let e = outcomes_of(s);
    assert("filled"@[1] != "failed"@[1]);
    assert(e[0].0 == "promotion_rejected"@);
    assert(e[1].0 == "promotion_expired"@);
    assert(e[2].0 == "filled"@);
    assert(e[3].0 == "partially_filled"@);
    assert(e[4].0 == "cancelled"@);
    assert(e[5].0 == "rejected"@);
    assert(e[6].0 == "expired"@);
    assert(e[7].0 == "reconciliation_required"@);
    assert(e[8].0 == "unknown_exchange_state"@);
    assert(e[9].0 == "failed"@);
    assert forall|k: int| 0 <= k < e.len() implies #[trigger] e[k] == (
        if k == 0 { e[0] } else if k == 1 { e[1] } else if k == 2 { e[2] } else if k == 3 { e[3] }
        else if k == 4 { e[4] } else if k == 5 { e[5] } else if k == 6 { e[6] } else if k == 7 { e[7] }
        else if k == 8 { e[8] } else { e[9] }
    ) by {}
}

/// The lifecycle states, each over the created testnet orders.
pub open spec fn lifecycle_of(s: TestnetPromotionFunnelSummary) -> Seq<(Seq<char>, int, (int, int))> {
    let d = s.testnet_orders_created_count as int;
    seq![
        (execution_state_name(TestnetExecutionState::ExchangeAcked), s.acked_count as int, rate_parts(s.acked_count as int, d)),
        (execution_state_name(TestnetExecutionState::PartiallyFilled), s.partially_filled_count as int, rate_parts(s.partially_filled_count as int, d)),
        (execution_state_name(TestnetExecutionState::Filled), s.filled_count as int, rate_parts(s.filled_count as int, d)),
        (execution_state_name(TestnetExecutionState::Cancelled), s.cancelled_count as int, rate_parts(s.cancelled_count as int, d)),
        (execution_state_name(TestnetExecutionState::Rejected), s.rejected_count as int, rate_parts(s.rejected_count as int, d)),
        (execution_state_name(TestnetExecutionState::Expired), s.expired_count as int, rate_parts(s.expired_count as int, d)),
        (execution_state_name(TestnetExecutionState::ReconciliationRequired), s.reconciliation_required_count as int, rate_parts(s.reconciliation_required_count as int, d)),
        (execution_state_name(TestnetExecutionState::UnknownExchangeState), s.unknown_exchange_state_count as int, rate_parts(s.unknown_exchange_state_count as int, d)),
        (execution_state_name(TestnetExecutionState::Failed), s.failed_count as int, rate_parts(s.failed_count as int, d)),
    ]
}

fn lifecycle_entry(state: TestnetExecutionState, count: i64, denominator: i64) -> (r: TestnetPromotionLifecycleBreakdown)
    ensures
        r.execution_state@ == execution_state_name(state) && r.count == count && r.rate_pct@
            == rate_parts(count as int, denominator as int),
{
    TestnetPromotionLifecycleBreakdown {
        execution_state: state.as_str(),
        count,
        rate_pct: promotion_rate(count, denominator),
    }
}

/// The lifecycle breakdown of a summary.
pub fn build_testnet_promotion_lifecycle_breakdown_from_summary(s: &TestnetPromotionFunnelSummary) -> (r: Vec<
    TestnetPromotionLifecycleBreakdown,
>)
    ensures
        r@.len() == lifecycle_of(*s).len(),
        forall|k: int|
            0 <= k < r@.len() ==> (#[trigger] r@[k]).execution_state@ == lifecycle_of(*s)[k].0
                && r@[k].count == lifecycle_of(*s)[k].1 && r@[k].rate_pct@ == lifecycle_of(*s)[k].2,
{
    let d = s.testnet_orders_created_count;
    let mut v: Vec<TestnetPromotionLifecycleBreakdown> = Vec::new();
    v.push(lifecycle_entry(TestnetExecutionState::ExchangeAcked, s.acked_count, d));
    v.push(lifecycle_entry(TestnetExecutionState::PartiallyFilled, s.partially_filled_count, d));
    v.push(lifecycle_entry(TestnetExecutionState::Filled, s.filled_count, d));
    v.push(lifecycle_entry(TestnetExecutionState::Cancelled, s.cancelled_count, d));
    v.push(lifecycle_entry(TestnetExecutionState::Rejected, s.rejected_count, d));
    v.push(lifecycle_entry(TestnetExecutionState::Expired, s.expired_count, d));
    v.push(lifecycle_entry(TestnetExecutionState::ReconciliationRequired, s.reconciliation_required_count, d));
    v.push(lifecycle_entry(TestnetExecutionState::UnknownExchangeState, s.unknown_exchange_state_count, d));
    v.push(lifecycle_entry(TestnetExecutionState::Failed, s.failed_count, d));
    v
}

/// The headline rates of a summary with their numerators and denominators.
pub open spec fn quality_of(s: TestnetPromotionFunnelSummary) -> Seq<(Seq<char>, Dec, int, int)> {
    seq![
        ("preview_rate"@, s.preview_rate_pct, s.promotion_previewed_count as int, s.shadow_would_submit_count as int),
        ("submit_rate"@, s.submit_rate_pct, s.promotion_submitted_count as int, s.promotion_previewed_count as int),
        ("ack_rate"@, s.ack_rate_pct, s.acked_count as int, s.testnet_orders_created_count as int),
        ("fill_rate"@, s.fill_rate_pct, s.filled_count as int, s.acked_count as int),
        ("reconciliation_required_rate"@, s.reconciliation_required_rate_pct, s.reconciliation_required_count as int, s.testnet_orders_created_count as int),
    ]
}

fn quality(name: &str, value_pct: Dec, numerator: i64, denominator: i64) -> (r: TestnetPromotionQualitySignal)
    ensures
        r.signal@ == name@ && r.value_pct == value_pct && r.numerator == numerator && r.denominator == denominator,
{
    TestnetPromotionQualitySignal { signal: owned(name), value_pct, numerator, denominator }
}

/// The quality signals of a summary.
pub fn build_testnet_promotion_quality_signals(s: &TestnetPromotionFunnelSummary) -> (r: Vec<
    TestnetPromotionQualitySignal,
>)
    ensures
        r@.len() == quality_of(*s).len(),
        forall|k: int|
            0 <= k < r@.len() ==> (#[trigger] r@[k]).signal@ == quality_of(*s)[k].0 && r@[k].value_pct
                == quality_of(*s)[k].1 && r@[k].numerator == quality_of(*s)[k].2 && r@[k].denominator
                == quality_of(*s)[k].3,
{
    let mut v: Vec<TestnetPromotionQualitySignal> = Vec::new();
    v.push(quality("preview_rate", s.preview_rate_pct, s.promotion_previewed_count, s.shadow_would_submit_count));
    v.push(quality("submit_rate", s.submit_rate_pct, s.promotion_submitted_count, s.promotion_previewed_count));
    v.push(quality("ack_rate", s.ack_rate_pct, s.acked_count, s.testnet_orders_created_count));
    v.push(quality("fill_rate", s.fill_rate_pct, s.filled_count, s.acked_count));
    v.push(quality("reconciliation_required_rate", s.reconciliation_required_rate_pct, s.reconciliation_required_count, s.testnet_orders_created_count));
    v
}


/// The milliseconds from shadow run to promotion preview, when both are known and the
/// preview is not earlier.
pub open spec fn preview_duration(r: TestnetPromotionFunnelMaterializedRow) -> Option<int> {
    match r.promotion_created_at {
        Some(p) => duration_millis_of(r.shadow_created_at, p),
        None => None,
    }
}

/// The milliseconds from promotion preview to submission, when both are known and the
/// submission is not earlier.
pub open spec fn submit_duration(r: TestnetPromotionFunnelMaterializedRow) -> Option<int> {
    match (r.promotion_created_at, r.submitted_at) {
        (Some(p), Some(t)) => duration_millis_of(p, t),
        _ => None,
    }
}

/// The sum of the known durations.
pub open spec fn total_duration(
    rows: Seq<TestnetPromotionFunnelMaterializedRow>,
    f: spec_fn(TestnetPromotionFunnelMaterializedRow) -> Option<int>,
) -> int
    decreases rows.len(),
{
    if rows.len() == 0 {
        0
    } else {
        total_duration(rows.drop_last(), f) + match f(rows.last()) {
            Some(v) => v,
            None => 0,
        }
    }
}

/// Largest duration in milliseconds between two instants.
pub open spec fn max_duration_millis() -> int {
    20_000_000_000_002_000
}

/// The rounded mean of durations that are each at most the largest duration is at most
/// that largest duration too.
proof fn lemma_average_within_max(total: int, samples: int)
    requires
        0 <= total <= samples * max_duration_millis(),
        samples > 0,
    ensures
        0 <= round_half_even(total, samples) <= max_duration_millis(),
{
    let m = max_duration_millis();
    let q = total / samples;
    let r = total % samples;
    assert(total == q * samples + r && 0 <= r < samples) by (nonlinear_arith)
        requires samples > 0, q == total / samples, r == total % samples;
    assert(q <= m) by (nonlinear_arith)
        requires total == q * samples + r, 0 <= r, total <= samples * m, samples > 0;
    assert(q >= 0) by (nonlinear_arith)
        requires total == q * samples + r, r < samples, total >= 0, samples > 0;
    if q == m {
        assert(r == 0) by (nonlinear_arith)
            requires total == q * samples + r, 0 <= r, total <= samples * m, q == m;
    }
}

/// Rows with a promotion.
pub open spec fn previewed() -> spec_fn(TestnetPromotionFunnelMaterializedRow) -> bool {
    |r: TestnetPromotionFunnelMaterializedRow| r.promotion_id is Some
}

/// Rows that count as submitted.
pub open spec fn submitted() -> spec_fn(TestnetPromotionFunnelMaterializedRow) -> bool {
    |r: TestnetPromotionFunnelMaterializedRow| counts_as_submitted(r)
}

/// A row with a submission time, a client order id or a testnet order id counts as
/// submitted, so adding it to the rows adds one to the submitted count; a row with none
/// of the three adds nothing.
pub proof fn law_submitted_rows_are_counted(rows: Seq<TestnetPromotionFunnelMaterializedRow>, x: TestnetPromotionFunnelMaterializedRow)
    ensures
        (x.submitted_at is Some || x.client_order_id is Some || x.testnet_order_id is Some)
            ==> count_rows(rows.push(x), submitted()) == count_rows(rows, submitted()) + 1,
        (x.submitted_at is None && x.client_order_id is None && x.testnet_order_id is None)
            ==> count_rows(rows.push(x), submitted()) == count_rows(rows, submitted()),
{
    assert(rows.push(x).drop_last() =~= rows);
}

/// A row adds one to the created-order count exactly when it has a client order id or
/// a testnet order id, and one to the duplicate-rejection count exactly when its
/// promotion status is `ALREADY_PROMOTED` or one of its rejection reasons is
/// `duplicate_submit` or `already_promoted`; otherwise it adds nothing to them.
pub proof fn law_created_and_duplicate_rows_are_counted(
    rows: Seq<TestnetPromotionFunnelMaterializedRow>,
    x: TestnetPromotionFunnelMaterializedRow,
)
    ensures
        count_rows(rows.push(x), order_created()) == count_rows(rows, order_created()) + if x.client_order_id is Some
            || x.testnet_order_id is Some {
            1int
        } else {
            0int
        },
        count_rows(rows.push(x), duplicate_rejected()) == count_rows(rows, duplicate_rejected()) + if (
        x.promotion_status is Some && x.promotion_status->0@ == "ALREADY_PROMOTED"@) || (exists|k: int|
            0 <= k < x.promotion_rejection_reasons@.len() && (#[trigger] x.promotion_rejection_reasons@[k]@
                == "duplicate_submit"@ || x.promotion_rejection_reasons@[k]@ == "already_promoted"@)) {
            1int
        } else {
            0int
        },
{
    assert(rows.push(x).drop_last() =~= rows);
}

/// Rows whose promotion has the given status.
pub open spec fn with_status(status: Seq<char>) -> spec_fn(TestnetPromotionFunnelMaterializedRow) -> bool {
    |r: TestnetPromotionFunnelMaterializedRow| has_status(r, status)
}

/// Rows rejected as duplicates.
pub open spec fn duplicate_rejected() -> spec_fn(TestnetPromotionFunnelMaterializedRow) -> bool {
    |r: TestnetPromotionFunnelMaterializedRow| counts_as_duplicate_rejected(r)
}

/// Rows that led to a testnet order.
pub open spec fn order_created() -> spec_fn(TestnetPromotionFunnelMaterializedRow) -> bool {
    |r: TestnetPromotionFunnelMaterializedRow| created_order(r)
}

/// Rows whose order was acknowledged.
pub open spec fn acked() -> spec_fn(TestnetPromotionFunnelMaterializedRow) -> bool {
    |r: TestnetPromotionFunnelMaterializedRow| r.acked_at is Some
}

/// Rows whose order is in the given state.
pub open spec fn state_is(st: TestnetExecutionState) -> spec_fn(TestnetPromotionFunnelMaterializedRow) -> bool {
    |r: TestnetPromotionFunnelMaterializedRow| in_state(r, st)
}

/// Rows with a preview duration.
pub open spec fn has_preview_duration() -> spec_fn(TestnetPromotionFunnelMaterializedRow) -> bool {
    |r: TestnetPromotionFunnelMaterializedRow| preview_duration(r) is Some
}

/// Rows with a submission duration.
pub open spec fn has_submit_duration() -> spec_fn(TestnetPromotionFunnelMaterializedRow) -> bool {
    |r: TestnetPromotionFunnelMaterializedRow| submit_duration(r) is Some
}

/// The breakdown entries have the given names, counts and rates.
pub open spec fn stages_match(v: Seq<TestnetPromotionFunnelStage>, e: Seq<(Seq<char>, int, (int, int))>) -> bool {
    &&& v.len() == e.len()
    &&& forall|k: int| 0 <= k < v.len() ==> (#[trigger] v[k]).stage@ == e[k].0 && v[k].count == e[k].1 && v[k].rate_pct@ == e[k].2
}

/// The breakdown entries have the given names, counts and rates.
pub open spec fn dropoffs_match(v: Seq<TestnetPromotionDropoffBreakdown>, e: Seq<(Seq<char>, int, (int, int))>) -> bool {
    &&& v.len() == e.len()
    &&& forall|k: int| 0 <= k < v.len() ==> (#[trigger] v[k]).stage@ == e[k].0 && v[k].dropped_count == e[k].1 && v[k].dropoff_rate_pct@ == e[k].2
}

/// The breakdown entries have the given names, counts and rates.
pub open spec fn outcomes_match(v: Seq<TestnetPromotionOutcomeBreakdown>, e: Seq<(Seq<char>, int, (int, int))>) -> bool {
    &&& v.len() == e.len()
    &&& forall|k: int| 0 <= k < v.len() ==> (#[trigger] v[k]).outcome@ == e[k].0 && v[k].count == e[k].1 && v[k].rate_pct@ == e[k].2
}

/// The breakdown entries have the given names, counts and rates.
pub open spec fn lifecycle_match(v: Seq<TestnetPromotionLifecycleBreakdown>, e: Seq<(Seq<char>, int, (int, int))>) -> bool {
    &&& v.len() == e.len()
    &&& forall|k: int| 0 <= k < v.len() ==> (#[trigger] v[k]).execution_state@ == e[k].0 && v[k].count == e[k].1 && v[k].rate_pct@ == e[k].2
}

/// The signals have the given names, values, numerators and denominators.
pub open spec fn quality_match(v: Seq<TestnetPromotionQualitySignal>, e: Seq<(Seq<char>, Dec, int, int)>) -> bool {
    &&& v.len() == e.len()
    &&& forall|k: int| 0 <= k < v.len() ==> (#[trigger] v[k]).signal@ == e[k].0 && v[k].value_pct == e[k].1 && v[k].numerator == e[k].2 && v[k].denominator == e[k].3
}

/// The summary is the funnel of the rows: each count is the number of rows in that
/// stage or state, the rates are the stated conversions, the averages are over the
/// rows whose durations are known, and the breakdowns are built from the counts.
pub open spec fn funnel_summary_matches(
    s: TestnetPromotionFunnelSummary,
    request: TestnetPromotionFunnelRequest,
    rows: Seq<TestnetPromotionFunnelMaterializedRow>,
    computed_at: Timestamp,
) -> bool {
    &&& summary_echoes_request(s, request, computed_at)
    &&& s.shadow_would_submit_count == rows.len()
    &&& s.promotion_previewed_count == count_rows(rows, previewed())
    &&& s.promotion_submitted_count == count_rows(rows, submitted())
    &&& s.promotion_rejected_count == count_rows(rows, with_status("REJECTED"@))
    &&& s.promotion_expired_count == count_rows(rows, with_status("EXPIRED"@))
    &&& s.promotion_duplicate_rejected_count == count_rows(rows, duplicate_rejected())
    &&& s.testnet_orders_created_count == count_rows(rows, order_created())
    &&& s.acked_count == count_rows(rows, acked())
    &&& s.filled_count == count_rows(rows, state_is(TestnetExecutionState::Filled))
    &&& s.partially_filled_count == count_rows(rows, state_is(TestnetExecutionState::PartiallyFilled))
    &&& s.cancelled_count == count_rows(rows, state_is(TestnetExecutionState::Cancelled))
    &&& s.rejected_count == count_rows(rows, state_is(TestnetExecutionState::Rejected))
    &&& s.expired_count == count_rows(rows, state_is(TestnetExecutionState::Expired))
    &&& s.reconciliation_required_count == count_rows(rows, state_is(TestnetExecutionState::ReconciliationRequired))
    &&& s.unknown_exchange_state_count == count_rows(rows, state_is(TestnetExecutionState::UnknownExchangeState))
    &&& s.failed_count == count_rows(rows, state_is(TestnetExecutionState::Failed))
    &&& s.preview_rate_pct@ == rate_parts(s.promotion_previewed_count as int, s.shadow_would_submit_count as int)
    &&& s.submit_rate_pct@ == rate_parts(s.promotion_submitted_count as int, s.promotion_previewed_count as int)
    &&& s.ack_rate_pct@ == rate_parts(s.acked_count as int, s.testnet_orders_created_count as int)
    &&& s.fill_rate_pct@ == rate_parts(s.filled_count as int, s.acked_count as int)
    &&& s.reconciliation_required_rate_pct@ == rate_parts(s.reconciliation_required_count as int, s.testnet_orders_created_count as int)
    &&& opt_parts(s.avg_time_shadow_to_preview_seconds) == average_seconds_of(
        total_duration(rows, |r: TestnetPromotionFunnelMaterializedRow| preview_duration(r)),
        count_rows(rows, has_preview_duration()) as int,
    )
    &&& opt_parts(s.avg_time_preview_to_submit_seconds) == average_seconds_of(
        total_duration(rows, |r: TestnetPromotionFunnelMaterializedRow| submit_duration(r)),
        count_rows(rows, has_submit_duration()) as int,
    )
    &&& stages_match(s.stages@, stages_of(s))
    &&& outcomes_match(s.outcome_breakdown@, outcomes_of(s))
    &&& dropoffs_match(s.dropoff_breakdown@, dropoffs_of(s))
    &&& lifecycle_match(s.lifecycle_breakdown@, lifecycle_of(s))
    &&& quality_match(s.quality_signals@, quality_of(s))
}

fn preview_duration_exec(row: &TestnetPromotionFunnelMaterializedRow) -> (r: Option<i64>)
    ensures
        match r {
            Some(v) => preview_duration(*row) == Some(v as int) && 0 <= v <= max_duration_millis(),
            None => preview_duration(*row) is None,
        },
{
    match row.promotion_created_at {
        Some(p) => duration_millis(row.shadow_created_at, p),
        None => None,
    }
}

fn submit_duration_exec(row: &TestnetPromotionFunnelMaterializedRow) -> (r: Option<i64>)
    ensures
        match r {
            Some(v) => submit_duration(*row) == Some(v as int) && 0 <= v <= max_duration_millis(),
            None => submit_duration(*row) is None,
        },
{
    match (row.promotion_created_at, row.submitted_at) {
        (Some(p), Some(t)) => duration_millis(p, t),
        _ => None,
    }
}


/// `new` is `old`, plus one when `hit`.
pub open spec fn bump(new: i64, old: i64, hit: bool) -> bool {
    new == old + if hit { 1int } else { 0int }
}

fn count_row(s: &mut TestnetPromotionFunnelSummary, row: &TestnetPromotionFunnelMaterializedRow)
    requires
        old(s).shadow_would_submit_count < i64::MAX,
        old(s).promotion_previewed_count < i64::MAX,
        old(s).promotion_submitted_count < i64::MAX,
        old(s).promotion_rejected_count < i64::MAX,
        old(s).promotion_expired_count < i64::MAX,
        old(s).promotion_duplicate_rejected_count < i64::MAX,
        old(s).testnet_orders_created_count < i64::MAX,
        old(s).acked_count < i64::MAX,
        old(s).filled_count < i64::MAX,
        old(s).partially_filled_count < i64::MAX,
        old(s).cancelled_count < i64::MAX,
        old(s).rejected_count < i64::MAX,
        old(s).expired_count < i64::MAX,
        old(s).reconciliation_required_count < i64::MAX,
        old(s).unknown_exchange_state_count < i64::MAX,
        old(s).failed_count < i64::MAX,
    ensures
        summary_echoes_request(*final(s), TestnetPromotionFunnelRequest {
            strategy_id: old(s).strategy_id,
            symbol: old(s).symbol,
            timeframe: old(s).timeframe,
            start_time: old(s).window_start,
            end_time: old(s).window_end,
            limit: None,
        }, old(s).computed_at),
        final(s).shadow_would_submit_count == old(s).shadow_would_submit_count + 1,
        bump(final(s).promotion_previewed_count, old(s).promotion_previewed_count, previewed()(*row)),
        bump(final(s).promotion_submitted_count, old(s).promotion_submitted_count, submitted()(*row)),
        bump(final(s).promotion_rejected_count, old(s).promotion_rejected_count, with_status("REJECTED"@)(*row)),
        bump(final(s).promotion_expired_count, old(s).promotion_expired_count, with_status("EXPIRED"@)(*row)),
        bump(final(s).promotion_duplicate_rejected_count, old(s).promotion_duplicate_rejected_count, duplicate_rejected()(*row)),
        bump(final(s).testnet_orders_created_count, old(s).testnet_orders_created_count, order_created()(*row)),
        bump(final(s).acked_count, old(s).acked_count, acked()(*row)),
        bump(final(s).filled_count, old(s).filled_count, state_is(TestnetExecutionState::Filled)(*row)),
        bump(final(s).partially_filled_count, old(s).partially_filled_count, state_is(TestnetExecutionState::PartiallyFilled)(*row)),
        bump(final(s).cancelled_count, old(s).cancelled_count, state_is(TestnetExecutionState::Cancelled)(*row)),
        bump(final(s).rejected_count, old(s).rejected_count, state_is(TestnetExecutionState::Rejected)(*row)),
        bump(final(s).expired_count, old(s).expired_count, state_is(TestnetExecutionState::Expired)(*row)),
        bump(final(s).reconciliation_required_count, old(s).reconciliation_required_count, state_is(TestnetExecutionState::ReconciliationRequired)(*row)),
        bump(final(s).unknown_exchange_state_count, old(s).unknown_exchange_state_count, state_is(TestnetExecutionState::UnknownExchangeState)(*row)),
        bump(final(s).failed_count, old(s).failed_count, state_is(TestnetExecutionState::Failed)(*row)),
{
        s.shadow_would_submit_count = s.shadow_would_submit_count + 1;
        if row.promotion_id.is_some() {
            s.promotion_previewed_count = s.promotion_previewed_count + 1;
        }
        if row_counts_as_submitted(row) {
            s.promotion_submitted_count = s.promotion_submitted_count + 1;
        }
        if status_is(row, "REJECTED") {
            s.promotion_rejected_count = s.promotion_rejected_count + 1;
        }
        if status_is(row, "EXPIRED") {
            s.promotion_expired_count = s.promotion_expired_count + 1;
        }
        if row_counts_as_duplicate_rejected(row) {
            s.promotion_duplicate_rejected_count = s.promotion_duplicate_rejected_count + 1;
        }
        if row.client_order_id.is_some() || row.testnet_order_id.is_some() {
            s.testnet_orders_created_count = s.testnet_orders_created_count + 1;
        }
        if row.acked_at.is_some() {
            s.acked_count = s.acked_count + 1;
        }
        match row.effective_execution_state {
            Some(TestnetExecutionState::Filled) => s.filled_count = s.filled_count + 1,
            Some(TestnetExecutionState::PartiallyFilled) => s.partially_filled_count = s.partially_filled_count + 1,
            Some(TestnetExecutionState::Cancelled) => s.cancelled_count = s.cancelled_count + 1,
            Some(TestnetExecutionState::Rejected) => s.rejected_count = s.rejected_count + 1,
            Some(TestnetExecutionState::Expired) => s.expired_count = s.expired_count + 1,
            Some(TestnetExecutionState::ReconciliationRequired) => s.reconciliation_required_count = s.reconciliation_required_count + 1,
            Some(TestnetExecutionState::UnknownExchangeState) => s.unknown_exchange_state_count = s.unknown_exchange_state_count + 1,
            Some(TestnetExecutionState::Failed) => s.failed_count = s.failed_count + 1,
            _ => {},
        }
}

/// Summarises the funnel rows of a request.
#[verifier::rlimit(40)]
pub fn summarize_testnet_promotion_funnel_rows(
    request: &TestnetPromotionFunnelRequest,
    rows: &Vec<TestnetPromotionFunnelMaterializedRow>,
    computed_at: Timestamp,
) -> (s: TestnetPromotionFunnelSummary)
    requires
        rows@.len() <= i64::MAX,
    ensures
        funnel_summary_matches(s, *request, rows@, computed_at),
{
    let mut summary = empty_testnet_promotion_funnel_summary(request, computed_at);
    let mut total_shadow_to_preview: i128 = 0;
    let mut shadow_to_preview_samples: i64 = 0;
    let mut total_preview_to_submit: i128 = 0;
    let mut preview_to_submit_samples: i64 = 0;
    let ghost pf = |r: TestnetPromotionFunnelMaterializedRow| preview_duration(r);
    let ghost sf = |r: TestnetPromotionFunnelMaterializedRow| submit_duration(r);
    let mut i: usize = 0;
    while i < rows.len()
        invariant
            i <= rows@.len(),
            rows@.len() <= i64::MAX,
            pf == |r: TestnetPromotionFunnelMaterializedRow| preview_duration(r),
            sf == |r: TestnetPromotionFunnelMaterializedRow| submit_duration(r),
            0 <= total_shadow_to_preview <= shadow_to_preview_samples * max_duration_millis(),
            0 <= total_preview_to_submit <= preview_to_submit_samples * max_duration_millis(),
            summary_echoes_request(summary, *request, computed_at),
            summary.shadow_would_submit_count == i,
            summary.promotion_previewed_count == count_rows(rows@.take(i as int), previewed()),
            summary.promotion_submitted_count == count_rows(rows@.take(i as int), submitted()),
            summary.promotion_rejected_count == count_rows(rows@.take(i as int), with_status("REJECTED"@)),
            summary.promotion_expired_count == count_rows(rows@.take(i as int), with_status("EXPIRED"@)),
            summary.promotion_duplicate_rejected_count == count_rows(rows@.take(i as int), duplicate_rejected()),
            summary.testnet_orders_created_count == count_rows(rows@.take(i as int), order_created()),
            summary.acked_count == count_rows(rows@.take(i as int), acked()),
            summary.filled_count == count_rows(rows@.take(i as int), state_is(TestnetExecutionState::Filled)),
            summary.partially_filled_count == count_rows(rows@.take(i as int), state_is(TestnetExecutionState::PartiallyFilled)),
            summary.cancelled_count == count_rows(rows@.take(i as int), state_is(TestnetExecutionState::Cancelled)),
            summary.rejected_count == count_rows(rows@.take(i as int), state_is(TestnetExecutionState::Rejected)),
            summary.expired_count == count_rows(rows@.take(i as int), state_is(TestnetExecutionState::Expired)),
            summary.reconciliation_required_count == count_rows(rows@.take(i as int), state_is(TestnetExecutionState::ReconciliationRequired)),
            summary.unknown_exchange_state_count == count_rows(rows@.take(i as int), state_is(TestnetExecutionState::UnknownExchangeState)),
            summary.failed_count == count_rows(rows@.take(i as int), state_is(TestnetExecutionState::Failed)),
            total_shadow_to_preview == total_duration(rows@.take(i as int), pf),
            shadow_to_preview_samples == count_rows(rows@.take(i as int), has_preview_duration()),
            total_preview_to_submit == total_duration(rows@.take(i as int), sf),
            preview_to_submit_samples == count_rows(rows@.take(i as int), has_submit_duration()),
        decreases rows@.len() - i,
    {
        let row = &rows[i];
        let ghost prefix = rows@.take(i as int);
        proof {
            assert(rows@.take(i as int + 1).drop_last() =~= prefix);
            assert(rows@.take(i as int + 1).last() == *row);
            lemma_count_rows_bound(prefix, previewed());
            lemma_count_rows_bound(prefix, submitted());
            lemma_count_rows_bound(prefix, with_status("REJECTED"@));
            lemma_count_rows_bound(prefix, with_status("EXPIRED"@));
            lemma_count_rows_bound(prefix, duplicate_rejected());
            lemma_count_rows_bound(prefix, order_created());
            lemma_count_rows_bound(prefix, acked());
            lemma_count_rows_bound(prefix, state_is(TestnetExecutionState::Filled));
            lemma_count_rows_bound(prefix, state_is(TestnetExecutionState::PartiallyFilled));
            lemma_count_rows_bound(prefix, state_is(TestnetExecutionState::Cancelled));
            lemma_count_rows_bound(prefix, state_is(TestnetExecutionState::Rejected));
            lemma_count_rows_bound(prefix, state_is(TestnetExecutionState::Expired));
            lemma_count_rows_bound(prefix, state_is(TestnetExecutionState::ReconciliationRequired));
            lemma_count_rows_bound(prefix, state_is(TestnetExecutionState::UnknownExchangeState));
            lemma_count_rows_bound(prefix, state_is(TestnetExecutionState::Failed));
            lemma_count_rows_bound(prefix, has_preview_duration());
            lemma_count_rows_bound(prefix, has_submit_duration());
            let ns = shadow_to_preview_samples as int;
            let nb = preview_to_submit_samples as int;
            assert(ns * max_duration_millis() <= 9223372036854775807 * max_duration_millis()) by (nonlinear_arith)
                requires ns <= 9223372036854775807;
            assert(nb * max_duration_millis() <= 9223372036854775807 * max_duration_millis()) by (nonlinear_arith)
                requires nb <= 9223372036854775807;
            assert(ns * max_duration_millis() + max_duration_millis() == (ns + 1) * max_duration_millis()) by (nonlinear_arith);
            assert(nb * max_duration_millis() + max_duration_millis() == (nb + 1) * max_duration_millis()) by (nonlinear_arith);
        }
        count_row(&mut summary, row);
        match preview_duration_exec(row) {
            Some(ms) => {
                total_shadow_to_preview = total_shadow_to_preview + ms as i128;
                shadow_to_preview_samples = shadow_to_preview_samples + 1;
            },
            None => {},
        }
        match submit_duration_exec(row) {
            Some(ms) => {
                total_preview_to_submit = total_preview_to_submit + ms as i128;
                preview_to_submit_samples = preview_to_submit_samples + 1;
            },
            None => {},
        }
        i = i + 1;
    }
    proof {
        assert(rows@.take(rows@.len() as int) =~= rows@);
        if count_rows(rows@, has_preview_duration()) > 0 {
            lemma_average_within_max(total_duration(rows@, pf), count_rows(rows@, has_preview_duration()) as int);
        }
        if count_rows(rows@, has_submit_duration()) > 0 {
            lemma_average_within_max(total_duration(rows@, sf), count_rows(rows@, has_submit_duration()) as int);
        }
    }
    summary.preview_rate_pct = promotion_rate(summary.promotion_previewed_count, summary.shadow_would_submit_count);
    summary.submit_rate_pct = promotion_rate(summary.promotion_submitted_count, summary.promotion_previewed_count);
    summary.ack_rate_pct = promotion_rate(summary.acked_count, summary.testnet_orders_created_count);
    summary.fill_rate_pct = promotion_rate(summary.filled_count, summary.acked_count);
    summary.reconciliation_required_rate_pct = promotion_rate(summary.reconciliation_required_count, summary.testnet_orders_created_count);
    summary.avg_time_shadow_to_preview_seconds = average_duration_seconds(total_shadow_to_preview, shadow_to_preview_samples);
    summary.avg_time_preview_to_submit_seconds = average_duration_seconds(total_preview_to_submit, preview_to_submit_samples);
    summary.stages = build_testnet_promotion_funnel_stage_breakdown(&summary);
    summary.outcome_breakdown = build_testnet_promotion_outcome_breakdown(&summary);
    summary.dropoff_breakdown = build_testnet_promotion_dropoff_breakdown(&summary);
    summary.lifecycle_breakdown = build_testnet_promotion_lifecycle_breakdown_from_summary(&summary);
    summary.quality_signals = build_testnet_promotion_quality_signals(&summary);
    summary
}


/// The funnel narrows: every row that led to a testnet order counts as submitted, and
/// no stage or exchange outcome counts more rows than there are shadow runs; the
/// exchange outcomes exclude each other, so together they count at most all rows.
pub proof fn law_funnel_narrows(rows: Seq<TestnetPromotionFunnelMaterializedRow>)
    ensures
        count_rows(rows, order_created()) <= count_rows(rows, submitted()),
        count_rows(rows, submitted()) <= rows.len(),
        count_rows(rows, previewed()) <= rows.len(),
        count_rows(rows, acked()) <= rows.len(),
        count_rows(rows, state_is(TestnetExecutionState::Filled))
            + count_rows(rows, state_is(TestnetExecutionState::PartiallyFilled))
            + count_rows(rows, state_is(TestnetExecutionState::Cancelled))
            + count_rows(rows, state_is(TestnetExecutionState::Rejected))
            + count_rows(rows, state_is(TestnetExecutionState::Expired))
            + count_rows(rows, state_is(TestnetExecutionState::ReconciliationRequired))
            + count_rows(rows, state_is(TestnetExecutionState::UnknownExchangeState))
            + count_rows(rows, state_is(TestnetExecutionState::Failed)) <= rows.len(),
    decreases rows.len(),
{
    if rows.len() > 0 {
        law_funnel_narrows(rows.drop_last());
    }
}

/// A row whose promotion preview is recorded at least a millisecond before its shadow
/// run, and that has no submission time, adds no sample to either average duration:
/// both averages are as they were without it.
pub proof fn law_negative_duration_is_not_a_sample(
    rows: Seq<TestnetPromotionFunnelMaterializedRow>,
    x: TestnetPromotionFunnelMaterializedRow,
)
    requires
        x.promotion_created_at is Some,
        total_nanos(x.promotion_created_at->0) + 1_000_000 <= total_nanos(x.shadow_created_at),
        x.submitted_at is None,
    ensures
        average_seconds_of(
            total_duration(rows.push(x), |r: TestnetPromotionFunnelMaterializedRow| preview_duration(r)),
            count_rows(rows.push(x), has_preview_duration()) as int,
        ) == average_seconds_of(
            total_duration(rows, |r: TestnetPromotionFunnelMaterializedRow| preview_duration(r)),
            count_rows(rows, has_preview_duration()) as int,
        ),
        average_seconds_of(
            total_duration(rows.push(x), |r: TestnetPromotionFunnelMaterializedRow| submit_duration(r)),
            count_rows(rows.push(x), has_submit_duration()) as int,
        ) == average_seconds_of(
            total_duration(rows, |r: TestnetPromotionFunnelMaterializedRow| submit_duration(r)),
            count_rows(rows, has_submit_duration()) as int,
        ),
{
    assert(rows.push(x).drop_last() =~= rows);
    assert(rows.push(x).last() == x);
    assert(preview_duration(x) is None);
    assert(submit_duration(x) is None);
}

/// A rate of part of a whole lies between 0% and 100%.
pub proof fn law_rate_within_percent(numerator: int, denominator: int)
    requires
        0 <= numerator <= denominator,
    ensures
        0 <= rate_mantissa(numerator, denominator) <= 10000,
{
    if denominator > 0 {
        let a = numerator * 10000;
        assert(a <= denominator * 10000) by (nonlinear_arith)
            requires
                0 <= numerator <= denominator,
                a == numerator * 10000,
        {
        }
        let q = a / denominator;
        let r = a % denominator;
        assert(q <= 10000) by (nonlinear_arith)
            requires
                0 <= a <= denominator * 10000,
                denominator > 0,
                q == a / denominator,
        {
        }
        assert(q == 10000 ==> r == 0) by (nonlinear_arith)
            requires
                0 <= a <= denominator * 10000,
                denominator > 0,
                q == a / denominator,
                r == a % denominator,
        {
        }
        lemma_round_half_even_bound(a, denominator);
    }
}

/// `e` has an entry named `name`, and every entry of that name carries `count` and
/// `rate`.
pub open spec fn has_entry(e: Seq<(Seq<char>, int, (int, int))>, name: Seq<char>, count: int, rate: (int, int)) -> bool {
    &&& exists|k: int| 0 <= k < e.len() && (#[trigger] e[k]).0 == name
    &&& forall|k: int| 0 <= k < e.len() && (#[trigger] e[k]).0 == name ==> e[k].1 == count && e[k].2 == rate
}

/// Each funnel stage carries its own count, rated over the stage before it: shadow
/// runs (100% when there are any), previews over shadow runs, submissions over
/// previews, acks over created orders, fills over acks, and reconciliations over
/// created orders.
pub proof fn law_stages_carry_their_counts(s: TestnetPromotionFunnelSummary)
    ensures
        has_entry(stages_of(s), "shadow_would_submit"@, s.shadow_would_submit_count as int,
            if s.shadow_would_submit_count > 0 { (100int, 0int) } else { (0int, 0int) }),
        has_entry(stages_of(s), "promotion_previewed"@, s.promotion_previewed_count as int,
            rate_parts(s.promotion_previewed_count as int, s.shadow_would_submit_count as int)),
        has_entry(stages_of(s), "promotion_submitted"@, s.promotion_submitted_count as int,
            rate_parts(s.promotion_submitted_count as int, s.promotion_previewed_count as int)),
        has_entry(stages_of(s), "acked"@, s.acked_count as int,
            rate_parts(s.acked_count as int, s.testnet_orders_created_count as int)),
        has_entry(stages_of(s), "filled"@, s.filled_count as int,
            rate_parts(s.filled_count as int, s.acked_count as int)),
        has_entry(stages_of(s), "reconciliation_required"@, s.reconciliation_required_count as int,
            rate_parts(s.reconciliation_required_count as int, s.testnet_orders_created_count as int)),
{
    reveal_strlit("shadow_would_submit");
    reveal_strlit("promotion_previewed");
    reveal_strlit("promotion_submitted");
    reveal_strlit("acked");
    reveal_strlit("filled");
    reveal_strlit("reconciliation_required");
    let e = stages_of(s);
    assert("shadow_would_submit"@[0] != "promotion_previewed"@[0]);
    assert("shadow_would_submit"@[0] != "promotion_submitted"@[0]);
    assert("promotion_previewed"@[10] != "promotion_submitted"@[10]);
    assert(e[0].0 == "shadow_would_submit"@);
    assert(e[1].0 == "promotion_previewed"@);
    assert(e[2].0 == "promotion_submitted"@);
    assert(e[3].0 == "acked"@);
    assert(e[4].0 == "filled"@);
    assert(e[5].0 == "reconciliation_required"@);
    assert forall|k: int| 0 <= k < e.len() implies #[trigger] e[k] == (
        if k == 0 { e[0] } else if k == 1 { e[1] } else if k == 2 { e[2] } else if k == 3 { e[3] }
        else if k == 4 { e[4] } else { e[5] }
    ) by {}
}

/// Each drop-off carries the shortfall from one stage to the next (never negative),
/// rated over the earlier stage: shadow runs to previews, previews to submissions,
/// submissions to acks, acks to fills.
pub proof fn law_dropoffs_carry_their_shortfalls(s: TestnetPromotionFunnelSummary)
    ensures
        has_entry(dropoffs_of(s), "shadow_to_preview"@,
            dropped(s.shadow_would_submit_count as int, s.promotion_previewed_count as int),
            rate_parts(dropped(s.shadow_would_submit_count as int, s.promotion_previewed_count as int), s.shadow_would_submit_count as int)),
        has_entry(dropoffs_of(s), "preview_to_submit"@,
            dropped(s.promotion_previewed_count as int, s.promotion_submitted_count as int),
            rate_parts(dropped(s.promotion_previewed_count as int, s.promotion_submitted_count as int), s.promotion_previewed_count as int)),
        has_entry(dropoffs_of(s), "submit_to_ack"@,
            dropped(s.promotion_submitted_count as int, s.acked_count as int),
            rate_parts(dropped(s.promotion_submitted_count as int, s.acked_count as int), s.promotion_submitted_count as int)),
        has_entry(dropoffs_of(s), "ack_to_fill"@,
            dropped(s.acked_count as int, s.filled_count as int),
            rate_parts(dropped(s.acked_count as int, s.filled_count as int), s.acked_count as int)),
        forall|k: int| 0 <= k < dropoffs_of(s).len() ==> (#[trigger] dropoffs_of(s)[k]).1 >= 0,
{
    reveal_strlit("shadow_to_preview");
    reveal_strlit("preview_to_submit");
    reveal_strlit("submit_to_ack");
    reveal_strlit("ack_to_fill");
    let e = dropoffs_of(s);
    assert("shadow_to_preview"@[0] != "preview_to_submit"@[0]);
    assert(e[0].0 == "shadow_to_preview"@);
    assert(e[1].0 == "preview_to_submit"@);
    assert(e[2].0 == "submit_to_ack"@);
    assert(e[3].0 == "ack_to_fill"@);
    assert forall|k: int| 0 <= k < e.len() implies #[trigger] e[k] == (
        if k == 0 { e[0] } else if k == 1 { e[1] } else if k == 2 { e[2] } else { e[3] }
    ) by {}
}

/// Each lifecycle entry, named by its execution state, carries the count of orders in
/// that state, rated over the created testnet orders.
pub proof fn law_lifecycle_entries_carry_their_counts(s: TestnetPromotionFunnelSummary)
    ensures
        ({
            let d = s.testnet_orders_created_count as int;
            let e = lifecycle_of(s);
            &&& has_entry(e, execution_state_name(TestnetExecutionState::ExchangeAcked), s.acked_count as int, rate_parts(s.acked_count as int, d))
            &&& has_entry(e, execution_state_name(TestnetExecutionState::PartiallyFilled), s.partially_filled_count as int, rate_parts(s.partially_filled_count as int, d))
            &&& has_entry(e, execution_state_name(TestnetExecutionState::Filled), s.filled_count as int, rate_parts(s.filled_count as int, d))
            &&& has_entry(e, execution_state_name(TestnetExecutionState::Cancelled), s.cancelled_count as int, rate_parts(s.cancelled_count as int, d))
            &&& has_entry(e, execution_state_name(TestnetExecutionState::Rejected), s.rejected_count as int, rate_parts(s.rejected_count as int, d))
            &&& has_entry(e, execution_state_name(TestnetExecutionState::Expired), s.expired_count as int, rate_parts(s.expired_count as int, d))
            &&& has_entry(e, execution_state_name(TestnetExecutionState::ReconciliationRequired), s.reconciliation_required_count as int, rate_parts(s.reconciliation_required_count as int, d))
            &&& has_entry(e, execution_state_name(TestnetExecutionState::UnknownExchangeState), s.unknown_exchange_state_count as int, rate_parts(s.unknown_exchange_state_count as int, d))
            &&& has_entry(e, execution_state_name(TestnetExecutionState::Failed), s.failed_count as int, rate_parts(s.failed_count as int, d))
        }),
{
    reveal_strlit("EXCHANGE_ACKED");
    reveal_strlit("PARTIALLY_FILLED");
    reveal_strlit("FILLED");
    reveal_strlit("CANCELLED");
    reveal_strlit("REJECTED");
    reveal_strlit("EXPIRED");
    reveal_strlit("RECONCILIATION_REQUIRED");
    reveal_strlit("UNKNOWN_EXCHANGE_STATE");
    reveal_strlit("FAILED");
    let e = lifecycle_of(s);
    assert("FILLED"@[1] != "FAILED"@[1]);
    assert(e[0].0 == "EXCHANGE_ACKED"@);
    assert(e[1].0 == "PARTIALLY_FILLED"@);
    assert(e[2].0 == "FILLED"@);
    assert(e[3].0 == "CANCELLED"@);
    assert(e[4].0 == "REJECTED"@);
    assert(e[5].0 == "EXPIRED"@);
    assert(e[6].0 == "RECONCILIATION_REQUIRED"@);
    assert(e[7].0 == "UNKNOWN_EXCHANGE_STATE"@);
    assert(e[8].0 == "FAILED"@);
    assert forall|k: int| 0 <= k < e.len() implies #[trigger] e[k] == (
        if k == 0 { e[0] } else if k == 1 { e[1] } else if k == 2 { e[2] } else if k == 3 { e[3] }
        else if k == 4 { e[4] } else if k == 5 { e[5] } else if k == 6 { e[6] } else if k == 7 { e[7] }
        else { e[8] }
    ) by {}
}

/// `q` has a signal named `name`, and every signal of that name carries the value
/// `value` with numerator `num` and denominator `den`.
pub open spec fn has_signal(q: Seq<(Seq<char>, Dec, int, int)>, name: Seq<char>, value: Dec, num: int, den: int) -> bool {
    &&& exists|k: int| 0 <= k < q.len() && (#[trigger] q[k]).0 == name
    &&& forall|k: int| 0 <= k < q.len() && (#[trigger] q[k]).0 == name ==> q[k].1 == value && q[k].2 == num && q[k].3 == den
}

/// Each quality signal carries its own rate from the summary, with the counts it is
/// the ratio of: previews over shadow runs, submissions over previews, acks over
/// created orders, fills over acks, reconciliations over created orders.
pub proof fn law_quality_signals_carry_their_rates(s: TestnetPromotionFunnelSummary)
    ensures
        has_signal(quality_of(s), "preview_rate"@, s.preview_rate_pct, s.promotion_previewed_count as int, s.shadow_would_submit_count as int),
        has_signal(quality_of(s), "submit_rate"@, s.submit_rate_pct, s.promotion_submitted_count as int, s.promotion_previewed_count as int),
        has_signal(quality_of(s), "ack_rate"@, s.ack_rate_pct, s.acked_count as int, s.testnet_orders_created_count as int),
        has_signal(quality_of(s), "fill_rate"@, s.fill_rate_pct, s.filled_count as int, s.acked_count as int),
        has_signal(quality_of(s), "reconciliation_required_rate"@, s.reconciliation_required_rate_pct,
            s.reconciliation_required_count as int, s.testnet_orders_created_count as int),
{
    reveal_strlit("preview_rate");
    reveal_strlit("submit_rate");
    reveal_strlit("ack_rate");
    reveal_strlit("fill_rate");
    reveal_strlit("reconciliation_required_rate");
    let q = quality_of(s);
    assert(q[0].0 == "preview_rate"@);
    assert(q[1].0 == "submit_rate"@);
    assert(q[2].0 == "ack_rate"@);
    assert(q[3].0 == "fill_rate"@);
    assert(q[4].0 == "reconciliation_required_rate"@);
    assert forall|k: int| 0 <= k < q.len() implies #[trigger] q[k] == (
        if k == 0 { q[0] } else if k == 1 { q[1] } else if k == 2 { q[2] } else if k == 3 { q[3] } else { q[4] }
    ) by {}
}

} // verus!
