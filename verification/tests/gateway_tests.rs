use identity_gateway::queue::OutboundQueue;
use identity_gateway::route::{route_request, Route};
use identity_gateway::search::{build_search_query, build_search_url, trim};
use identity_gateway::tools::check_error;

fn b(s: &str) -> Vec<u8> {
    s.as_bytes().to_vec()
}

#[test]
fn queue_preserves_submission_order() {
    let mut q = OutboundQueue::new();
    assert_eq!(q.len(), 0);
    q.submit(b("first"));
    q.submit(b("second"));
    q.submit(b("third"));
    assert_eq!(q.len(), 3);
    let drained = q.drain();
    assert_eq!(drained, vec![b("first"), b("second"), b("third")]);
    assert_eq!(q.len(), 0);
}

#[test]
fn routing_decisions() {
    assert_eq!(route_request(true, &b("/anything")), Route::Upgrade);
    assert_eq!(route_request(true, &b("/health")), Route::Upgrade);
    assert_eq!(route_request(false, &b("/health")), Route::Health);
    assert_eq!(route_request(false, &b("/")), Route::NotFound);
    assert_eq!(route_request(false, &b("/healthz")), Route::NotFound);
}

#[test]
fn check_error_empty_is_ok() {
    let msgs: Vec<Vec<u8>> = Vec::new();
    assert_eq!(check_error(&msgs), Ok(()));
}

#[test]
fn check_error_joins_messages_one_per_line() {
    let msgs = vec![b("first failure"), b("second failure"), b("third failure")];
    assert_eq!(
        check_error(&msgs),
        Err(b("first failure\nsecond failure\nthird failure"))
    );
}

#[test]
fn check_error_single_message_has_no_newline() {
    let msgs = vec![b("only failure")];
    assert_eq!(check_error(&msgs), Err(b("only failure")));
}

#[test]
fn trim_removes_surrounding_whitespace() {
    assert_eq!(trim(&b("  ann \t")), b("ann"));
    assert_eq!(trim(&b("ann")), b("ann"));
    assert_eq!(trim(&b("\r\n")), b(""));
    assert_eq!(trim(&b("")), b(""));
    assert_eq!(trim(&b("a n")), b("a n"));
}

#[test]
fn search_query_document() {
    assert_eq!(
        build_search_query(&b(" ann ")),
        b(r#"{"size":20,"query":{"prefix":{"username":"ann"}}}"#)
    );
}

#[test]
fn search_query_escapes_the_prefix() {
    assert_eq!(
        build_search_query(&b(r#"a"b"#)),
        b(r#"{"size":20,"query":{"prefix":{"username":"a\"b"}}}"#)
    );
}

#[test]
fn search_url_for_endpoint() {
    assert_eq!(
        build_search_url(&b("search.example.com:9200")),
        b("https://search.example.com:9200/users/_search/")
    );
}
