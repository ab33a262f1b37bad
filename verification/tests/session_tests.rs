use identity_gateway::codec::{encode_query_frame, encode_search_success};
use identity_gateway::session::{Action, Event, Phase, Session};

fn b(s: &str) -> Vec<u8> {
    s.as_bytes().to_vec()
}

/// Bring a fresh session through the upgrade and a successful
/// authentication; returns it in the serving state.
fn authenticated_session() -> Session {
    let mut s = Session::new();
    assert_eq!(s.phase(), Phase::Connecting);
    let acts = s.step(Event::UpgradeDone);
    assert!(acts.is_empty());
    assert_eq!(s.phase(), Phase::AwaitingAuth);
    let acts = s.step(Event::TextFrame(b(r#"{"auth":"payload"}"#)));
    assert_eq!(acts, vec![Action::Authenticate(b(r#"{"auth":"payload"}"#))]);
    assert_eq!(s.phase(), Phase::CheckingAuth);
    let acts = s.step(Event::AuthVerdict(Ok(())));
    assert_eq!(
        acts,
        vec![Action::SendFrame(b(r#"{"status":"success"}"#)), Action::SetTimer]
    );
    assert_eq!(s.phase(), Phase::Authenticated);
    s
}

#[test]
fn valid_auth_then_query_gets_correlated_response() {
    let mut s = authenticated_session();

    let frame = encode_query_frame(&b("42"), &b("ann"));
    let acts = s.step(Event::TextFrame(frame));
    assert_eq!(
        acts,
        vec![
            Action::SetTimer,
            Action::StartSearch { id: b("42"), prefix: b("ann") },
        ]
    );

    let acts = s.step(Event::SearchDone(Ok(vec![b("anna"), b("annie")])));
    assert_eq!(
        acts,
        vec![Action::SendFrame(b(
            r#"{"id":"42","status":"success","hits":["anna","annie"]}"#
        ))]
    );
    assert_eq!(s.phase(), Phase::Authenticated);
}

#[test]
fn backend_failure_still_answers_the_query_once() {
    let mut s = authenticated_session();
    let frame = encode_query_frame(&b("7"), &b("bo"));
    s.step(Event::TextFrame(frame));
    let acts = s.step(Event::SearchDone(Err(b("search failed"))));
    assert_eq!(
        acts,
        vec![Action::SendFrame(b(r#"{"id":"7","status":"error","error":"search failed"}"#))]
    );
    assert_eq!(s.phase(), Phase::Authenticated);
}

#[test]
fn invalid_auth_gets_error_frame_then_close() {
    let mut s = Session::new();
    s.step(Event::UpgradeDone);
    s.step(Event::TextFrame(b("bad payload")));
    let acts = s.step(Event::AuthVerdict(Err(b("invalid credentials"))));
    assert_eq!(
        acts,
        vec![
            Action::SendFrame(b(r#"{"status":"error","message":"invalid credentials"}"#)),
            Action::Close,
        ]
    );
    assert_eq!(s.phase(), Phase::Closing);
    // nothing further is ever sent
    let acts = s.step(Event::TextFrame(b(r#"{"tag":"heartbeat"}"#)));
    assert!(acts.is_empty());
    let acts = s.step(Event::CloseDone);
    assert!(acts.is_empty());
    assert_eq!(s.phase(), Phase::Closed);
}

#[test]
fn non_text_auth_frame_closes_without_acknowledgment() {
    let mut s = Session::new();
    s.step(Event::UpgradeDone);
    let acts = s.step(Event::UnsupportedFrame);
    assert_eq!(acts, vec![Action::Close]);
    assert_eq!(s.phase(), Phase::Closing);
}

#[test]
fn silent_connection_gets_one_probe_then_dies() {
    let mut s = authenticated_session();
    let acts = s.step(Event::DeadlineElapsed);
    assert_eq!(
        acts,
        vec![Action::SendFrame(b(r#"{"tag":"heartbeat"}"#)), Action::SetTimer]
    );
    assert_eq!(s.phase(), Phase::Authenticated);
    let acts = s.step(Event::DeadlineElapsed);
    assert_eq!(acts, vec![Action::Close]);
    assert_eq!(s.phase(), Phase::Closing);
    let acts = s.step(Event::CloseDone);
    assert!(acts.is_empty());
    assert_eq!(s.phase(), Phase::Closed);
}

#[test]
fn traffic_keeps_the_connection_alive() {
    let mut s = authenticated_session();
    // any text frame resets the liveness evidence, even after a probe
    let acts = s.step(Event::DeadlineElapsed);
    assert_eq!(acts.len(), 2);
    let acts = s.step(Event::TextFrame(b(r#"{"tag":"heartbeat"}"#)));
    assert_eq!(acts, vec![Action::SetTimer]);
    // the next deadline probes again instead of closing
    let acts = s.step(Event::DeadlineElapsed);
    assert_eq!(
        acts,
        vec![Action::SendFrame(b(r#"{"tag":"heartbeat"}"#)), Action::SetTimer]
    );
    assert_eq!(s.phase(), Phase::Authenticated);
}

#[test]
fn malformed_frame_is_dropped_and_connection_stays_open() {
    let mut s = authenticated_session();
    let acts = s.step(Event::TextFrame(b("{not json")));
    assert_eq!(acts, vec![Action::SetTimer]);
    assert_eq!(s.phase(), Phase::Authenticated);
    // a later valid frame is still processed
    let frame = encode_query_frame(&b("42"), &b("ann"));
    let acts = s.step(Event::TextFrame(frame));
    assert_eq!(
        acts,
        vec![
            Action::SetTimer,
            Action::StartSearch { id: b("42"), prefix: b("ann") },
        ]
    );
}

#[test]
fn unrecognized_tag_is_dropped_without_response() {
    let mut s = authenticated_session();
    let acts = s.step(Event::TextFrame(b(r#"{"tag":"unknownThing"}"#)));
    assert_eq!(acts, vec![Action::SetTimer]);
    assert_eq!(s.phase(), Phase::Authenticated);
}

#[test]
fn transport_events_in_serving_state() {
    let mut s = authenticated_session();
    let acts = s.step(Event::PingFrame(b("p1")));
    assert_eq!(acts, vec![Action::SendPong(b("p1"))]);
    let acts = s.step(Event::PongFrame);
    assert!(acts.is_empty());
    let acts = s.step(Event::CloseFrame);
    assert_eq!(acts, vec![Action::Close]);
    assert_eq!(s.phase(), Phase::Closing);
}

#[test]
fn stream_end_during_serving_closes() {
    let mut s = authenticated_session();
    let acts = s.step(Event::StreamEnd);
    assert_eq!(acts, vec![Action::Close]);
    assert_eq!(s.phase(), Phase::Closing);
}

#[test]
fn handshake_failure_goes_straight_to_closed() {
    let mut s = Session::new();
    let acts = s.step(Event::StreamEnd);
    assert!(acts.is_empty());
    assert_eq!(s.phase(), Phase::Closed);
}

#[test]
fn search_response_uses_the_servers_encoder() {
    // the frame the session sends for a completed search is exactly the
    // codec's encoding
    let mut s = authenticated_session();
    s.step(Event::TextFrame(encode_query_frame(&b("X"), &b("a"))));
    let acts = s.step(Event::SearchDone(Ok(vec![b("abe")])));
    let expected = encode_search_success(&b("X"), &vec![b("abe")]);
    assert_eq!(acts, vec![Action::SendFrame(expected)]);
}
