use aegis_db::orders::{
    execution_state_as_str, freshness_status_from_str, is_unique_violation_code,
    kill_switch_labels, order_status_as_str, paper_order_risk_gate, paper_order_transitions,
    CreateOrderError, DataFreshnessStatus, ExecutionState, OrderStatus,
};
use aegis_db::timestamp::Timestamp;
use aegis_db::{DbConfig, StateActor};

fn ts(micros: i64) -> Timestamp {
    Timestamp::new(micros.div_euclid(1_000_000), (micros.rem_euclid(1_000_000) * 1_000) as u32).unwrap()
}

fn micros_of(t: Timestamp) -> i64 {
    t.secs() * 1_000_000 + (t.subsec_nanos() / 1_000) as i64
}

#[test]
fn order_status_and_execution_state_names() {
    assert_eq!(order_status_as_str(OrderStatus::Open), "OPEN");
    assert_eq!(order_status_as_str(OrderStatus::Cancelled), "CANCELLED");
    assert_eq!(execution_state_as_str(ExecutionState::IntentCreated), "INTENT_CREATED");
    assert_eq!(execution_state_as_str(ExecutionState::PaperFilled), "PAPER_FILLED");
}

#[test]
fn freshness_status_parses_known_names_only() {
    assert_eq!(freshness_status_from_str("fresh"), DataFreshnessStatus::Fresh);
    assert_eq!(freshness_status_from_str("stale"), DataFreshnessStatus::Stale);
    assert_eq!(freshness_status_from_str("FRESH"), DataFreshnessStatus::Unknown);
    assert_eq!(freshness_status_from_str(""), DataFreshnessStatus::Unknown);
}

#[test]
fn risk_gate_needs_an_approved_decision() {
    assert!(paper_order_risk_gate(Some("APPROVED")).is_ok());
    assert!(matches!(paper_order_risk_gate(Some("REJECTED")), Err(CreateOrderError::RiskDecisionNotApproved)));
    assert!(matches!(paper_order_risk_gate(Some("approved")), Err(CreateOrderError::RiskDecisionNotApproved)));
    assert!(matches!(paper_order_risk_gate(None), Err(CreateOrderError::RiskDecisionNotFound)));
}

#[test]
fn unique_violation_is_code_23505() {
    assert!(is_unique_violation_code(Some("23505")));
    assert!(!is_unique_violation_code(Some("23503")));
    assert!(!is_unique_violation_code(None));
}

#[test]
fn paper_order_lifecycle_ends_filled_or_expired() {
    let now = ts(1_000);
    let filled = vec![
        ExecutionState::IntentCreated,
        ExecutionState::RiskApproved,
        ExecutionState::OrderPrepared,
        ExecutionState::PaperSubmitted,
        ExecutionState::PaperFilled,
    ];
    assert_eq!(paper_order_transitions(None, now), filled);
    assert_eq!(paper_order_transitions(Some(ts(1_001)), now), filled);
    let expired = vec![
        ExecutionState::IntentCreated,
        ExecutionState::RiskApproved,
        ExecutionState::OrderPrepared,
        ExecutionState::Expired,
    ];
    assert_eq!(paper_order_transitions(Some(now), now), expired);
    assert_eq!(paper_order_transitions(Some(ts(5)), now), expired);
}

#[test]
fn kill_switch_labels_by_direction() {
    let (action, event) = kill_switch_labels(true);
    assert_eq!(action, "risk.kill_switch.activate");
    assert_eq!(event, "system.kill_switch.enabled");
    let (action, event) = kill_switch_labels(false);
    assert_eq!(action, "risk.kill_switch.resume");
    assert_eq!(event, "system.kill_switch.disabled");
}

#[test]
fn db_config_defaults_to_five_connections() {
    let config = DbConfig::new("postgres://localhost/aegis".to_string());
    assert_eq!(config.database_url, "postgres://localhost/aegis");
    assert_eq!(config.max_connections, 5);
}

#[test]
fn system_actor_has_no_user_id() {
    let actor = StateActor::system("scheduler".to_string());
    assert_eq!(actor.actor, "scheduler");
    assert!(actor.actor_id.is_none());
}
