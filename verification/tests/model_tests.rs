//! Entity model tests: state and kind names and their round trip.

use tg_watchbot::model::{BatchState, OutboxKind};

#[test]
fn batch_state_as_str_names() {
    assert_eq!(BatchState::Open.as_str(), "OPEN");
    assert_eq!(BatchState::WaitingTitle.as_str(), "WAITING_TITLE");
    assert_eq!(BatchState::Committed.as_str(), "COMMITTED");
    assert_eq!(BatchState::RolledBack.as_str(), "ROLLED_BACK");
}

#[test]
fn batch_state_parse_round_trip() {
    for state in [
        BatchState::Open,
        BatchState::WaitingTitle,
        BatchState::Committed,
        BatchState::RolledBack,
    ] {
        assert_eq!(BatchState::parse_state(state.as_str()), Some(state));
    }
    assert_eq!(BatchState::parse_state("open"), None);
    assert_eq!(BatchState::parse_state(""), None);
    assert_eq!(BatchState::parse_state("COMMITTED "), None);
}

#[test]
fn outbox_kind_as_str_names() {
    assert_eq!(OutboxKind::PushBatch.as_str(), "push_batch");
    assert_eq!(OutboxKind::PushResource.as_str(), "push_resource");
}
