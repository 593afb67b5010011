//! The broker session state machine.
//!
//! One session runs `Disconnected → Connecting → Connected → Active → Disconnected`.
//! While connecting, the session polls for the broker's acknowledgment
//! under a bounded wall-clock timeout; any transport error, or the timeout
//! itself, is fatal to the attempt and surfaced to the caller — no retry
//! happens at this layer.  On acknowledgment the session announces its
//! identity on the discovery topic and subscribes to the shared and the
//! session-specific topics; in the active phase each inbound publish is
//! handed to the dispatcher, a clean disconnect ends the loop cleanly, and
//! a transport error ends it with that error.  The event loop itself runs
//! outside and feeds events in; every decision is taken here.

use vstd::prelude::*;

verus! {

/// How long the connecting phase polls for the broker's acknowledgment
/// before the attempt counts as broker-unreachable, in milliseconds.
pub const CONNECT_TIMEOUT_MS: u64 = 10000;

/// The session lifecycle states.
#[derive(PartialEq, Eq, Structural, Clone, Copy, Debug)]
pub enum SessionState {
    Disconnected,
    Connecting,
    Connected,
    Active,
}

/// One event handed in by the transport loop.
#[derive(PartialEq, Eq, Structural, Clone, Copy, Debug)]
pub enum SessionEvent {
    /// The broker acknowledged the connection.
    ConnAck,
    /// Any other incoming event of no interest to this layer.
    OtherEvent,
    /// The connecting deadline passed without an acknowledgment.
    PollTimeout,
    /// Presence announced and subscriptions in place.
    SubscribeDone,
    /// A publish arrived on a subscribed topic.
    IncomingPublish,
    /// The broker closed the connection in an orderly way.
    Disconnect,
    /// The transport failed.
    TransportError,
}

/// What the caller must do after a step.
#[derive(PartialEq, Eq, Structural, Clone, Copy, Debug)]
pub enum SessionAction {
    /// Keep polling.
    Wait,
    /// The connection attempt failed: surface the failure to the caller.
    FailAttempt,
    /// Announce presence on the discovery topic, then subscribe to the
    /// shared topic and to the session-specific topic.
    StartSession,
    /// Hand the received payload to the dispatcher, with the flag saying
    /// whether it arrived on the session-specific topic.
    Dispatch,
    /// Leave the loop cleanly.
    ExitClean,
    /// Leave the loop with the transport error.
    ExitError,
}

/// The transition table.
pub open spec fn spec_session_step(s: SessionState, e: SessionEvent) -> (
    SessionState,
    SessionAction,
) {
    match s {
        SessionState::Disconnected => (SessionState::Disconnected, SessionAction::Wait),
        SessionState::Connecting => match e {
            SessionEvent::ConnAck => (SessionState::Connected, SessionAction::StartSession),
            SessionEvent::PollTimeout => (
                SessionState::Disconnected,
                SessionAction::FailAttempt,
            ),
            SessionEvent::TransportError => (
                SessionState::Disconnected,
                SessionAction::FailAttempt,
            ),
            _ => (SessionState::Connecting, SessionAction::Wait),
        },
        SessionState::Connected => match e {
            SessionEvent::SubscribeDone => (SessionState::Active, SessionAction::Wait),
            SessionEvent::Disconnect => (SessionState::Disconnected, SessionAction::ExitClean),
            SessionEvent::TransportError => (
                SessionState::Disconnected,
                SessionAction::FailAttempt,
            ),
            _ => (SessionState::Connected, SessionAction::Wait),
        },
        SessionState::Active => match e {
            SessionEvent::IncomingPublish => (SessionState::Active, SessionAction::Dispatch),
            SessionEvent::Disconnect => (SessionState::Disconnected, SessionAction::ExitClean),
            SessionEvent::TransportError => (
                SessionState::Disconnected,
                SessionAction::ExitError,
            ),
            _ => (SessionState::Active, SessionAction::Wait),
        },
    }
}

/// Takes one step of the session state machine.
pub fn session_step(state: SessionState, event: SessionEvent) -> (r: (
    SessionState,
    SessionAction,
))
    ensures
        r == spec_session_step(state, event),
{
    match state {
        SessionState::Disconnected => (SessionState::Disconnected, SessionAction::Wait),
        SessionState::Connecting => match event {
            SessionEvent::ConnAck => (SessionState::Connected, SessionAction::StartSession),
            SessionEvent::PollTimeout => (
                SessionState::Disconnected,
                SessionAction::FailAttempt,
            ),
            SessionEvent::TransportError => (
                SessionState::Disconnected,
                SessionAction::FailAttempt,
            ),
            _ => (SessionState::Connecting, SessionAction::Wait),
        },
        SessionState::Connected => match event {
            SessionEvent::SubscribeDone => (SessionState::Active, SessionAction::Wait),
            SessionEvent::Disconnect => (SessionState::Disconnected, SessionAction::ExitClean),
            SessionEvent::TransportError => (
                SessionState::Disconnected,
                SessionAction::FailAttempt,
            ),
            _ => (SessionState::Connected, SessionAction::Wait),
        },
        SessionState::Active => match event {
            SessionEvent::IncomingPublish => (SessionState::Active, SessionAction::Dispatch),
            SessionEvent::Disconnect => (SessionState::Disconnected, SessionAction::ExitClean),
            SessionEvent::TransportError => (
                SessionState::Disconnected,
                SessionAction::ExitError,
            ),
            _ => (SessionState::Active, SessionAction::Wait),
        },
    }
}

/// Whether the connecting deadline has passed.
pub fn connect_deadline_exceeded(elapsed_ms: u64) -> (r: bool)
    ensures
        r == (elapsed_ms >= CONNECT_TIMEOUT_MS),
{
    elapsed_ms >= CONNECT_TIMEOUT_MS
}

/// A session that reached `Disconnected` stays there: restarting takes a
/// fresh session with a fresh identity.
pub proof fn lemma_disconnected_is_terminal(e: SessionEvent)
    ensures
        spec_session_step(SessionState::Disconnected, e).0 is Disconnected,
{
}

/// Only the active phase dispatches, and only on an inbound publish.
pub proof fn lemma_dispatch_only_when_active(s: SessionState, e: SessionEvent)
    ensures
        spec_session_step(s, e).1 is Dispatch ==> s is Active && e is IncomingPublish,
{
}

} // verus!
