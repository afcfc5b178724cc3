//! Order states and their stored names, the risk gate and lifecycle of paper
//! orders, and the labels of a kill switch change.
use crate::text::{owned, str_eq};
use crate::timestamp::{ts_le, Timestamp};
use vstd::prelude::*;
use vstd::string::*;

verus! {

#[verifier::external_type_specification]
#[verifier::external_body]
pub struct ExAnyhowError(anyhow::Error);

/// The status of an order.
#[derive(Clone, Copy, Debug, PartialEq, Eq, Structural)]
pub enum OrderStatus {
    Open,
    Rejected,
    Filled,
    Cancelled,
    Expired,
}

/// The stored name of an order status.
pub open spec fn order_status_name(s: OrderStatus) -> Seq<char> {
    match s {
        OrderStatus::Open => "OPEN"@,
        OrderStatus::Rejected => "REJECTED"@,
        OrderStatus::Filled => "FILLED"@,
        OrderStatus::Cancelled => "CANCELLED"@,
        OrderStatus::Expired => "EXPIRED"@,
    }
}

/// The stored name of an order status.
pub fn order_status_as_str(status: OrderStatus) -> (s: &'static str)
    ensures
        s@ == order_status_name(status),
{
    match status {
        OrderStatus::Open => "OPEN",
        OrderStatus::Rejected => "REJECTED",
        OrderStatus::Filled => "FILLED",
        OrderStatus::Cancelled => "CANCELLED",
        OrderStatus::Expired => "EXPIRED",
    }
}

/// Where an order is in its execution.
#[derive(Clone, Copy, Debug, PartialEq, Eq, Structural)]
pub enum ExecutionState {
    IntentCreated,
    RiskApproved,
    OrderPrepared,
    PaperSubmitted,
    PaperFilled,
    PaperCancelled,
    Rejected,
    Expired,
}

/// The stored name of an execution state.
pub open spec fn execution_state_name(s: ExecutionState) -> Seq<char> {
    match s {
        ExecutionState::IntentCreated => "INTENT_CREATED"@,
        ExecutionState::RiskApproved => "RISK_APPROVED"@,
        ExecutionState::OrderPrepared => "ORDER_PREPARED"@,
        ExecutionState::PaperSubmitted => "PAPER_SUBMITTED"@,
        ExecutionState::PaperFilled => "PAPER_FILLED"@,
        ExecutionState::PaperCancelled => "PAPER_CANCELLED"@,
        ExecutionState::Rejected => "REJECTED"@,
        ExecutionState::Expired => "EXPIRED"@,
    }
}

/// The stored name of an execution state.
pub fn execution_state_as_str(state: ExecutionState) -> (s: &'static str)
    ensures
        s@ == execution_state_name(state),
{
    match state {
        ExecutionState::IntentCreated => "INTENT_CREATED",
        ExecutionState::RiskApproved => "RISK_APPROVED",
        ExecutionState::OrderPrepared => "ORDER_PREPARED",
        ExecutionState::PaperSubmitted => "PAPER_SUBMITTED",
        ExecutionState::PaperFilled => "PAPER_FILLED",
        ExecutionState::PaperCancelled => "PAPER_CANCELLED",
        ExecutionState::Rejected => "REJECTED",
        ExecutionState::Expired => "EXPIRED",
    }
}

/// How fresh a market feed's data is.
#[derive(Clone, Copy, Debug, PartialEq, Eq, Structural)]
pub enum DataFreshnessStatus {
    Fresh,
    Stale,
    Unknown,
}

/// The freshness of a stored name: `fresh`, `stale`, anything else unknown.
pub fn freshness_status_from_str(value: &str) -> (s: DataFreshnessStatus)
    ensures
        value@ == "fresh"@ ==> s == DataFreshnessStatus::Fresh,
        value@ == "stale"@ ==> s == DataFreshnessStatus::Stale,
        value@ != "fresh"@ && value@ != "stale"@ ==> s == DataFreshnessStatus::Unknown,
{
    proof {
        reveal_strlit("fresh");
        reveal_strlit("stale");
        assert("fresh"@[0] != "stale"@[0]);
    }
    if str_eq(value, "fresh") {
        DataFreshnessStatus::Fresh
    } else if str_eq(value, "stale") {
        DataFreshnessStatus::Stale
    } else {
        DataFreshnessStatus::Unknown
    }
}

/// Why a paper order was not created.
#[derive(Debug)]
pub enum CreateOrderError {
    /// The intent names no stored risk decision.
    RiskDecisionNotFound,
    /// The risk decision did not approve.
    RiskDecisionNotApproved,
    /// An order with the intent's idempotency key exists.
    DuplicateIdempotencyKey,
    /// The intent is not a valid order.
    InvalidIntent(String),
    /// Anything else went wrong.
    Unexpected(anyhow::Error),
}

/// A paper order needs a stored risk decision that approved it.
pub fn paper_order_risk_gate(decision: Option<&str>) -> (r: Result<(), CreateOrderError>)
    ensures
        decision is None ==> (r is Err && r->Err_0 is RiskDecisionNotFound),
        decision is Some && decision->0@ != "APPROVED"@ ==> (r is Err && r->Err_0 is RiskDecisionNotApproved),
        decision is Some && decision->0@ == "APPROVED"@ ==> r is Ok,
{
    match decision {
        None => Err(CreateOrderError::RiskDecisionNotFound),
        Some(d) => if str_eq(d, "APPROVED") {
            Ok(())
        } else {
            Err(CreateOrderError::RiskDecisionNotApproved)
        },
    }
}

/// The PostgreSQL error code of a unique-key violation.
pub open spec fn unique_violation_code() -> Seq<char> {
    "23505"@
}

/// A database error with this code is a unique-key violation.
pub fn is_unique_violation_code(code: Option<&str>) -> (b: bool)
    ensures
        b == (code is Some && code->0@ == unique_violation_code()),
{
    match code {
        Some(c) => str_eq(c, "23505"),
        None => false,
    }
}

/// The states a paper order goes through once stored: created, risk-approved and
/// prepared; then expired when its expiry is not after `now`, otherwise submitted and
/// filled.
pub open spec fn paper_order_states(expires_at: Option<Timestamp>, now: Timestamp) -> Seq<ExecutionState> {
    let head = seq![ExecutionState::IntentCreated, ExecutionState::RiskApproved, ExecutionState::OrderPrepared];
    if expires_at is Some && ts_le(expires_at->0, now) {
        head.push(ExecutionState::Expired)
    } else {
        head.push(ExecutionState::PaperSubmitted).push(ExecutionState::PaperFilled)
    }
}

/// The lifecycle of a paper order that passed its gate.
pub fn paper_order_transitions(expires_at: Option<Timestamp>, now: Timestamp) -> (t: Vec<ExecutionState>)
    ensures
        t@ == paper_order_states(expires_at, now),
{
    let mut t: Vec<ExecutionState> = Vec::new();
    t.push(ExecutionState::IntentCreated);
    t.push(ExecutionState::RiskApproved);
    t.push(ExecutionState::OrderPrepared);
    let expired = match expires_at {
        Some(e) => !now.before(&e),
        None => false,
    };
    if expired {
        t.push(ExecutionState::Expired);
    } else {
        t.push(ExecutionState::PaperSubmitted);
        t.push(ExecutionState::PaperFilled);
    }
    proof {
        assert(t@ =~= paper_order_states(expires_at, now));
    }
    t
}

/// Every paper order starts as created, risk-approved and prepared, and ends either
/// expired or filled.
pub proof fn law_paper_order_lifecycle(expires_at: Option<Timestamp>, now: Timestamp)
    ensures
        paper_order_states(expires_at, now).take(3) == seq![ExecutionState::IntentCreated, ExecutionState::RiskApproved, ExecutionState::OrderPrepared],
        paper_order_states(expires_at, now).last() == ExecutionState::Expired || paper_order_states(expires_at, now).last()
            == ExecutionState::PaperFilled,
{
    assert(paper_order_states(expires_at, now).take(3) =~= seq![ExecutionState::IntentCreated, ExecutionState::RiskApproved, ExecutionState::OrderPrepared]);
}

/// The audit action and event type of a kill switch change.
pub fn kill_switch_labels(enabled: bool) -> (r: (String, String))
    ensures
        enabled ==> r.0@ == "risk.kill_switch.activate"@ && r.1@ == "system.kill_switch.enabled"@,
        !enabled ==> r.0@ == "risk.kill_switch.resume"@ && r.1@ == "system.kill_switch.disabled"@,
{
    if enabled {
        (owned("risk.kill_switch.activate"), owned("system.kill_switch.enabled"))
    } else {
        (owned("risk.kill_switch.resume"), owned("system.kill_switch.disabled"))
    }
}

} // verus!
