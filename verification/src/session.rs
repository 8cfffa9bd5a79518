use vstd::prelude::*;

verus! {

/// Lifecycle of one realtime session: `Connecting` while the protocol
/// upgrade is in flight, `Streaming` while snapshots are forwarded to the
/// client, `Closed` once the session has ended.
#[derive(Clone, Copy, Debug, PartialEq, Eq)]
pub enum SessionState {
    Connecting,
    Streaming,
    Closed,
}

/// Everything that can happen to a session from the outside: the protocol
/// upgrade finishing (with a hub subscription obtained), a snapshot arriving
/// from the subscription, the outcome of a write to the client, the
/// subscription closing, or the client going away.
#[derive(Clone, Copy, Debug, PartialEq, Eq)]
pub enum SessionEvent {
    UpgradeComplete,
    SnapshotReceived,
    SendSucceeded,
    SendFailed,
    SubscriptionClosed,
    ClientDisconnected,
}

/// What the surrounding connection handler must do after a step: nothing,
/// serialize and send the received snapshot as one message, or release the
/// hub subscription because the session is over.
#[derive(Clone, Copy, Debug, PartialEq, Eq)]
pub enum SessionAction {
    DoNothing,
    SendSnapshot,
    ReleaseSubscription,
}

/// The session transition function. A session starts streaming when the
/// upgrade completes, forwards every received snapshot while streaming, and
/// moves to `Closed` on the first send failure, subscription closure or
/// client disconnect — releasing its subscription if it held one. `Closed`
/// is terminal. Events that cannot occur in a state are ignored.
pub open spec fn session_step_spec(s: SessionState, e: SessionEvent) -> (SessionState,
    SessionAction) {
    match s {
        SessionState::Connecting => match e {
            SessionEvent::UpgradeComplete => (SessionState::Streaming, SessionAction::DoNothing),
            SessionEvent::SendFailed => (SessionState::Closed, SessionAction::DoNothing),
            SessionEvent::SubscriptionClosed => (SessionState::Closed, SessionAction::DoNothing),
            SessionEvent::ClientDisconnected => (SessionState::Closed, SessionAction::DoNothing),
            _ => (SessionState::Connecting, SessionAction::DoNothing),
        },
        SessionState::Streaming => match e {
            SessionEvent::SnapshotReceived => (SessionState::Streaming,
            SessionAction::SendSnapshot),
            SessionEvent::SendSucceeded => (SessionState::Streaming, SessionAction::DoNothing),
            SessionEvent::SendFailed => (SessionState::Closed, SessionAction::ReleaseSubscription),
            SessionEvent::SubscriptionClosed => (SessionState::Closed,
            SessionAction::ReleaseSubscription),
            SessionEvent::ClientDisconnected => (SessionState::Closed,
            SessionAction::ReleaseSubscription),
            _ => (SessionState::Streaming, SessionAction::DoNothing),
        },
        SessionState::Closed => (SessionState::Closed, SessionAction::DoNothing),
    }
}

/// Advances a session by one event and says what the handler must do next;
/// behaves exactly as `session_step_spec`.
pub fn session_step(s: SessionState, e: SessionEvent) -> (r: (SessionState, SessionAction))
    ensures
        r == session_step_spec(s, e),
{
    match s {
        SessionState::Connecting => match e {
            SessionEvent::UpgradeComplete => (SessionState::Streaming, SessionAction::DoNothing),
            SessionEvent::SendFailed => (SessionState::Closed, SessionAction::DoNothing),
            SessionEvent::SubscriptionClosed => (SessionState::Closed, SessionAction::DoNothing),
            SessionEvent::ClientDisconnected => (SessionState::Closed, SessionAction::DoNothing),
            _ => (SessionState::Connecting, SessionAction::DoNothing),
        },
        SessionState::Streaming => match e {
            SessionEvent::SnapshotReceived => (SessionState::Streaming,
            SessionAction::SendSnapshot),
            SessionEvent::SendSucceeded => (SessionState::Streaming, SessionAction::DoNothing),
            SessionEvent::SendFailed => (SessionState::Closed, SessionAction::ReleaseSubscription),
            SessionEvent::SubscriptionClosed => (SessionState::Closed,
            SessionAction::ReleaseSubscription),
            SessionEvent::ClientDisconnected => (SessionState::Closed,
            SessionAction::ReleaseSubscription),
            _ => (SessionState::Streaming, SessionAction::DoNothing),
        },
        SessionState::Closed => (SessionState::Closed, SessionAction::DoNothing),
    }
}

/// A disconnect while streaming ends the session: the handler reaches
/// `Closed` and releases its hub subscription.
pub proof fn lemma_disconnect_closes()
    ensures
        session_step_spec(SessionState::Streaming, SessionEvent::ClientDisconnected) == (
        SessionState::Closed,
        SessionAction::ReleaseSubscription,
        ),
{
}

/// `Closed` is terminal: no event moves a closed session anywhere, and no
/// further action is ever requested.
pub proof fn lemma_closed_terminal(e: SessionEvent)
    ensures
        session_step_spec(SessionState::Closed, e) == (SessionState::Closed,
        SessionAction::DoNothing),
{
}

/// While streaming, the only event that makes the handler write to the
/// client is the arrival of a snapshot, and the session keeps streaming.
pub proof fn lemma_streaming_sends_only_snapshots(e: SessionEvent)
    ensures
        session_step_spec(SessionState::Streaming, e).1 == SessionAction::SendSnapshot <==> e
            == SessionEvent::SnapshotReceived,
        session_step_spec(SessionState::Streaming, SessionEvent::SnapshotReceived).0
            == SessionState::Streaming,
{
}

} // verus!
