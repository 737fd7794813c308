use pluely_oauth::callback::{callback_http_response, callback_page_body, parse_callback_request};

fn some(s: &str) -> Option<String> {
    Some(s.to_string())
}

#[test]
fn parse_reads_code_and_state() {
    let req = "GET /callback?code=abc123&state=xyz HTTP/1.1\r\nHost: 127.0.0.1\r\n\r\n";
    assert_eq!(parse_callback_request(req), (some("abc123"), some("xyz")));
}

#[test]
fn parse_decodes_values() {
    let req = "GET /callback?state=a%2Fb&code=c%20d HTTP/1.1\r\n";
    assert_eq!(parse_callback_request(req), (some("c d"), some("a/b")));
}

#[test]
fn parse_without_prefix_finds_nothing() {
    assert_eq!(parse_callback_request("POST /callback?code=a&state=b HTTP/1.1"), (None, None));
    assert_eq!(parse_callback_request(""), (None, None));
}

#[test]
fn parse_without_space_after_query_finds_nothing() {
    assert_eq!(parse_callback_request("GET /callback?code=a&state=b"), (None, None));
}

#[test]
fn parse_keeps_last_value_of_repeated_key() {
    let req = "GET /callback?code=1&code=2&state=s HTTP/1.1";
    assert_eq!(parse_callback_request(req), (some("2"), some("s")));
}

#[test]
fn parse_gives_empty_value_for_key_without_equals() {
    let req = "GET /callback?code&state=s HTTP/1.1";
    assert_eq!(parse_callback_request(req), (some(""), some("s")));
}

#[test]
fn parse_ignores_other_keys_and_empty_pieces() {
    let req = "GET /callback?foo=bar&&state=s=t& HTTP/1.1";
    assert_eq!(parse_callback_request(req), (None, some("s=t")));
}

#[test]
fn parse_uses_first_prefix_occurrence() {
    let req = "xx GET /callback?code=a GET /callback?code=b&state=c HTTP/1.1";
    assert_eq!(parse_callback_request(req), (some("a"), None));
}

#[test]
fn parse_handles_non_ascii_requests() {
    let req = "\u{e9}GET /callback?code=\u{e9}&state=%E2%80%94 HTTP/1.1";
    assert_eq!(parse_callback_request(req), (some("\u{e9}"), some("\u{e2}\u{80}\u{94}")));
}

#[test]
fn response_counts_utf8_bytes_of_page() {
    let body = callback_page_body();
    assert_eq!(body.len(), 114);
    let expected = format!(
        "HTTP/1.1 200 OK\r\nContent-Type: text/html\r\nContent-Length: {}\r\nConnection: close\r\n\r\n{}",
        114, body
    );
    assert_eq!(callback_http_response(), expected);
}

#[test]
fn page_body_is_the_completion_page() {
    assert_eq!(
        callback_page_body(),
        "<html><body><h1>Pluely \u{2014} OAuth Complete</h1><p>You can close this window and return to Pluely.</p></body></html>"
    );
}
