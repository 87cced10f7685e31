use aip_desktop::domain::{
    can_transition_message, can_transition_runtime, MessageAuthor, MessageStatus,
    ProviderSnapshot, ProviderState, RuntimeState, RuntimeStatus,
};

#[test]
fn runtime_transitions_are_bounded() {
    assert!(can_transition_runtime(RuntimeState::Ready, RuntimeState::SafeMode));
    assert!(!can_transition_runtime(RuntimeState::SafeMode, RuntimeState::Ready));
    assert!(can_transition_runtime(RuntimeState::SafeMode, RuntimeState::Starting));
}

#[test]
fn every_state_but_safe_mode_enters_safe_mode() {
    for state in [
        RuntimeState::Stopped,
        RuntimeState::Starting,
        RuntimeState::Ready,
        RuntimeState::Unavailable,
        RuntimeState::Crashed,
    ] {
        assert!(can_transition_runtime(state, RuntimeState::SafeMode));
        assert!(!can_transition_runtime(state, state));
    }
    assert!(!can_transition_runtime(RuntimeState::SafeMode, RuntimeState::SafeMode));
}

#[test]
fn message_statuses_only_move_forward() {
    assert!(can_transition_message(MessageStatus::Pending, MessageStatus::Streaming));
    assert!(can_transition_message(MessageStatus::Streaming, MessageStatus::Complete));
    assert!(can_transition_message(MessageStatus::Pending, MessageStatus::Cancelled));
    assert!(!can_transition_message(MessageStatus::Pending, MessageStatus::Complete));
    assert!(!can_transition_message(MessageStatus::Complete, MessageStatus::Streaming));
    assert!(!can_transition_message(MessageStatus::Failed, MessageStatus::Pending));
    assert!(!can_transition_message(MessageStatus::Streaming, MessageStatus::Pending));
}

#[test]
fn message_status_names_round_trip() {
    for status in [
        MessageStatus::Pending,
        MessageStatus::Streaming,
        MessageStatus::Complete,
        MessageStatus::Failed,
        MessageStatus::Cancelled,
    ] {
        assert_eq!(MessageStatus::parse(status.as_str()), Ok(status));
    }
    assert_eq!(MessageStatus::Cancelled.as_str(), "cancelled");
    assert_eq!(MessageStatus::parse("done"), Err(()));
    assert_eq!(MessageAuthor::parse("user"), Ok(MessageAuthor::User));
    assert_eq!(MessageAuthor::parse("robot"), Err(()));
}

#[test]
fn runtime_and_provider_start_from_known_states() {
    let status = RuntimeStatus::stopped();
    assert_eq!(status.state, RuntimeState::Stopped);
    assert_eq!(status.detail_code, "runtime_stopped");
    let checking = ProviderSnapshot::checking();
    assert_eq!(checking.state, ProviderState::Checking);
    assert_eq!(checking.detail_code, "provider_checking");
    let down = ProviderSnapshot::unavailable("provider_unreachable");
    assert_eq!(down.state, ProviderState::Unavailable);
    assert_eq!(down.detail_code, "provider_unreachable");
}
