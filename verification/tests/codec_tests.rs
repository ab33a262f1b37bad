use identity_gateway::codec::{
    decode_inbound, decode_search_response, encode_auth_error, encode_auth_success,
    encode_heartbeat_frame, encode_query_frame, encode_search_failure, encode_search_success,
    InboundMsg, SearchResponseMsg,
};

fn b(s: &str) -> Vec<u8> {
    s.as_bytes().to_vec()
}

#[test]
fn auth_success_frame_bytes() {
    assert_eq!(encode_auth_success(), b(r#"{"status":"success"}"#));
}

#[test]
fn auth_error_frame_bytes() {
    assert_eq!(
        encode_auth_error(&b("invalid credentials")),
        b(r#"{"status":"error","message":"invalid credentials"}"#)
    );
}

#[test]
fn heartbeat_frame_bytes() {
    assert_eq!(encode_heartbeat_frame(), b(r#"{"tag":"heartbeat"}"#));
}

#[test]
fn search_success_frame_bytes() {
    let hits = vec![b("anna"), b("annie")];
    assert_eq!(
        encode_search_success(&b("42"), &hits),
        b(r#"{"id":"42","status":"success","hits":["anna","annie"]}"#)
    );
}

#[test]
fn search_success_frame_no_hits() {
    let hits: Vec<Vec<u8>> = Vec::new();
    assert_eq!(
        encode_search_success(&b("7"), &hits),
        b(r#"{"id":"7","status":"success","hits":[]}"#)
    );
}

#[test]
fn search_failure_frame_bytes() {
    assert_eq!(
        encode_search_failure(&b("42"), &b("search failed")),
        b(r#"{"id":"42","status":"error","error":"search failed"}"#)
    );
}

#[test]
fn decode_heartbeat() {
    let r = decode_inbound(&b(r#"{"tag":"heartbeat"}"#));
    assert_eq!(r, Some(InboundMsg::Heartbeat));
}

#[test]
fn decode_query() {
    let frame = b(r#"{"tag":"identitySearchQuery","id":"42","searchMethod":{"prefix":"ann"}}"#);
    let r = decode_inbound(&frame);
    assert_eq!(r, Some(InboundMsg::Query { id: b("42"), prefix: b("ann") }));
}

#[test]
fn decode_unknown_tag_is_unrecognized() {
    let r = decode_inbound(&b(r#"{"tag":"somethingElse"}"#));
    assert_eq!(r, Some(InboundMsg::Unrecognized));
}

#[test]
fn decode_malformed_frame_is_rejected() {
    assert_eq!(decode_inbound(&b("this is not json")), None);
    assert_eq!(decode_inbound(&b(r#"{"tag":"heartbeat""#)), None);
    assert_eq!(decode_inbound(&b("")), None);
}

#[test]
fn query_frame_round_trip() {
    let frame = encode_query_frame(&b("q-1"), &b("ann"));
    assert_eq!(
        frame,
        b(r#"{"tag":"identitySearchQuery","id":"q-1","searchMethod":{"prefix":"ann"}}"#)
    );
    let r = decode_inbound(&frame);
    assert_eq!(r, Some(InboundMsg::Query { id: b("q-1"), prefix: b("ann") }));
}

#[test]
fn search_response_round_trip_preserves_order_and_duplicates() {
    let hits = vec![b("bob"), b("anna"), b("anna"), b("al\"ice"), b("ba\\ck")];
    let frame = encode_search_success(&b("id-9"), &hits);
    let r = decode_search_response(&frame);
    assert_eq!(r, Some(SearchResponseMsg::Success { id: b("id-9"), hits }));
}

#[test]
fn search_response_round_trip_empty_hits() {
    let hits: Vec<Vec<u8>> = Vec::new();
    let frame = encode_search_success(&b(""), &hits);
    let r = decode_search_response(&frame);
    assert_eq!(r, Some(SearchResponseMsg::Success { id: b(""), hits }));
}

#[test]
fn search_failure_round_trip() {
    let frame = encode_search_failure(&b("42"), &b("backend unreachable"));
    let r = decode_search_response(&frame);
    assert_eq!(
        r,
        Some(SearchResponseMsg::Failure { id: b("42"), error: b("backend unreachable") })
    );
}

#[test]
fn decode_response_rejects_malformed() {
    assert_eq!(decode_search_response(&b("{}")), None);
    assert_eq!(decode_search_response(&b(r#"{"id":"42","status":"success","hits":["#)), None);
}

#[test]
fn escaped_id_round_trip() {
    let id = b(r#"a"b\c"#);
    let frame = encode_search_failure(&id, &b("x"));
    let r = decode_search_response(&frame);
    assert_eq!(r, Some(SearchResponseMsg::Failure { id, error: b("x") }));
}
