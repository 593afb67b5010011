use datacenter::auth::{
    auth_prompt, authenticate_client, denied_message, granted_message, invalid_json_message,
    trim_bytes, AuthDecision,
};
use datacenter::session::{
    connect_deadline_exceeded, session_step, SessionAction, SessionEvent, SessionState,
    CONNECT_TIMEOUT_MS,
};

fn bytes(s: &str) -> Vec<u8> {
    s.as_bytes().to_vec()
}

#[test]
fn empty_read_means_disconnected() {
    let r = authenticate_client(&Vec::new(), &bytes("secret"));
    assert!(matches!(r, AuthDecision::Disconnected));
}

#[test]
fn correct_password_is_granted_after_trimming() {
    let r = authenticate_client(&bytes("secret\n"), &bytes("secret"));
    assert!(matches!(r, AuthDecision::Granted));
    let r = authenticate_client(&bytes("  secret \r\n"), &bytes("secret"));
    assert!(matches!(r, AuthDecision::Granted));
}

#[test]
fn wrong_password_is_denied() {
    let r = authenticate_client(&bytes("Secret\n"), &bytes("secret"));
    assert!(matches!(r, AuthDecision::Denied));
    let r = authenticate_client(&bytes("wrong"), &bytes("secret"));
    assert!(matches!(r, AuthDecision::Denied));
}

#[test]
fn comparison_is_verbatim_inside() {
    let r = authenticate_client(&bytes("sec ret"), &bytes("secret"));
    assert!(matches!(r, AuthDecision::Denied));
}

#[test]
fn trim_strips_only_surrounding_whitespace() {
    assert_eq!(trim_bytes(&bytes("  a b \t\n")), bytes("a b"));
    assert_eq!(trim_bytes(&bytes("")), bytes(""));
    assert_eq!(trim_bytes(&bytes(" \n ")), bytes(""));
}

#[test]
fn wire_texts_match_the_protocol() {
    assert_eq!(auth_prompt(), bytes("Enter password: "));
    assert_eq!(
        granted_message(),
        bytes("Access granted. You can now send JSON messages.\n")
    );
    assert_eq!(denied_message(), bytes("Access denied.\n"));
    assert_eq!(invalid_json_message(), bytes("Error: Invalid JSON format\n"));
}

#[test]
fn connecting_acknowledgment_starts_the_session() {
    let (s, a) = session_step(SessionState::Connecting, SessionEvent::ConnAck);
    assert_eq!(s, SessionState::Connected);
    assert_eq!(a, SessionAction::StartSession);
    let (s, a) = session_step(SessionState::Connected, SessionEvent::SubscribeDone);
    assert_eq!(s, SessionState::Active);
    assert_eq!(a, SessionAction::Wait);
}

#[test]
fn connecting_timeout_and_errors_fail_the_attempt() {
    let (s, a) = session_step(SessionState::Connecting, SessionEvent::PollTimeout);
    assert_eq!(s, SessionState::Disconnected);
    assert_eq!(a, SessionAction::FailAttempt);
    let (s, a) = session_step(SessionState::Connecting, SessionEvent::TransportError);
    assert_eq!(s, SessionState::Disconnected);
    assert_eq!(a, SessionAction::FailAttempt);
    let (s, a) = session_step(SessionState::Connecting, SessionEvent::OtherEvent);
    assert_eq!(s, SessionState::Connecting);
    assert_eq!(a, SessionAction::Wait);
}

#[test]
fn active_phase_dispatches_and_exits() {
    let (s, a) = session_step(SessionState::Active, SessionEvent::IncomingPublish);
    assert_eq!(s, SessionState::Active);
    assert_eq!(a, SessionAction::Dispatch);
    let (s, a) = session_step(SessionState::Active, SessionEvent::Disconnect);
    assert_eq!(s, SessionState::Disconnected);
    assert_eq!(a, SessionAction::ExitClean);
    let (s, a) = session_step(SessionState::Active, SessionEvent::TransportError);
    assert_eq!(s, SessionState::Disconnected);
    assert_eq!(a, SessionAction::ExitError);
}

#[test]
fn disconnected_is_terminal() {
    let (s, a) = session_step(SessionState::Disconnected, SessionEvent::ConnAck);
    assert_eq!(s, SessionState::Disconnected);
    assert_eq!(a, SessionAction::Wait);
}

#[test]
fn connect_deadline_is_ten_seconds() {
    assert_eq!(CONNECT_TIMEOUT_MS, 10000);
    assert!(!connect_deadline_exceeded(9999));
    assert!(connect_deadline_exceeded(10000));
    assert!(connect_deadline_exceeded(10001));
}
