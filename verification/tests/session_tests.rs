use cpu_dashboard::session::{session_step, SessionAction, SessionEvent, SessionState};

#[test]
fn upgrade_starts_streaming() {
    assert_eq!(
        session_step(SessionState::Connecting, SessionEvent::UpgradeComplete),
        (SessionState::Streaming, SessionAction::DoNothing)
    );
}

#[test]
fn snapshots_are_forwarded_while_streaming() {
    assert_eq!(
        session_step(SessionState::Streaming, SessionEvent::SnapshotReceived),
        (SessionState::Streaming, SessionAction::SendSnapshot)
    );
    assert_eq!(
        session_step(SessionState::Streaming, SessionEvent::SendSucceeded),
        (SessionState::Streaming, SessionAction::DoNothing)
    );
}

#[test]
fn disconnect_while_streaming_closes_and_releases() {
    assert_eq!(
        session_step(SessionState::Streaming, SessionEvent::ClientDisconnected),
        (SessionState::Closed, SessionAction::ReleaseSubscription)
    );
}

#[test]
fn send_failure_and_subscription_closure_end_the_session() {
    assert_eq!(
        session_step(SessionState::Streaming, SessionEvent::SendFailed),
        (SessionState::Closed, SessionAction::ReleaseSubscription)
    );
    assert_eq!(
        session_step(SessionState::Streaming, SessionEvent::SubscriptionClosed),
        (SessionState::Closed, SessionAction::ReleaseSubscription)
    );
}

#[test]
fn closed_is_terminal() {
    for e in [
        SessionEvent::UpgradeComplete,
        SessionEvent::SnapshotReceived,
        SessionEvent::SendSucceeded,
        SessionEvent::SendFailed,
        SessionEvent::SubscriptionClosed,
        SessionEvent::ClientDisconnected,
    ] {
        assert_eq!(
            session_step(SessionState::Closed, e),
            (SessionState::Closed, SessionAction::DoNothing)
        );
    }
}

#[test]
fn disconnect_before_upgrade_releases_nothing() {
    assert_eq!(
        session_step(SessionState::Connecting, SessionEvent::ClientDisconnected),
        (SessionState::Closed, SessionAction::DoNothing)
    );
}
