//! Exercises the harness end to end with an in-memory transport: requests
//! are assembled into wire parts, a response is handed back to the pending
//! half, and the shared jar is inspected through the public API.

use http_harness::cookies::Cookie;
use http_harness::request::build_request_path;
use http_harness::state::SharedServerState;
use http_harness::HarnessError;

fn server(save_cookies: bool) -> SharedServerState {
    SharedServerState::new("127.0.0.1:3000".to_string(), None, save_cookies)
}

fn header_value(headers: &[(String, String)], name: &str) -> Option<String> {
    for (n, v) in headers {
        if n == name {
            return Some(v.clone());
        }
    }
    None
}

#[test]
fn join_empty_sub_path() {
    assert_eq!(build_request_path("example.com:80", ""), "http://example.com:80");
}

#[test]
fn join_leading_slash_sub_path() {
    assert_eq!(build_request_path("example.com", "/user"), "http://example.com/user");
}

#[test]
fn join_bare_sub_path() {
    assert_eq!(build_request_path("example.com", "user"), "http://example.com/user");
}

#[test]
fn request_url_uses_join_rule() {
    let state = server(false);
    let (wire, _) = state
        .make_request("GET".to_string(), "login".to_string())
        .start_send()
        .unwrap();
    assert_eq!(wire.url, "http://127.0.0.1:3000/login");
    assert_eq!(wire.method, "GET");
}

#[test]
fn json_sets_body_and_default_content_type() {
    let state = server(false);
    let value = serde_json::Value::String("hi".to_string());
    let (wire, _) = state
        .make_request("POST".to_string(), "/items".to_string())
        .json(&value)
        .start_send()
        .unwrap();
    assert_eq!(wire.body, serde_json::to_vec(&value).unwrap());
    assert_eq!(
        header_value(&wire.headers, "content-type").as_deref(),
        Some("application/json")
    );
}

#[test]
fn explicit_content_type_wins_over_json_default() {
    let state = server(false);
    let value = serde_json::Value::Bool(true);
    let (wire, _) = state
        .make_request("POST".to_string(), "/items".to_string())
        .json(&value)
        .content_type("x")
        .start_send()
        .unwrap();
    assert_eq!(header_value(&wire.headers, "content-type").as_deref(), Some("x"));
}

#[test]
fn content_type_set_first_survives_json() {
    let state = server(false);
    let value = serde_json::Value::Null;
    let (wire, _) = state
        .make_request("POST".to_string(), "/items".to_string())
        .content_type("application/xml")
        .json(&value)
        .start_send()
        .unwrap();
    assert_eq!(
        header_value(&wire.headers, "content-type").as_deref(),
        Some("application/xml")
    );
}

#[test]
fn text_sets_body_and_default_content_type() {
    let state = server(false);
    let (wire, _) = state
        .make_request("POST".to_string(), "/notes".to_string())
        .text("hello")
        .start_send()
        .unwrap();
    assert_eq!(wire.body, b"hello".to_vec());
    assert_eq!(header_value(&wire.headers, "content-type").as_deref(), Some("text/plain"));
}

#[test]
fn bytes_leaves_content_type_unset() {
    let state = server(false);
    let (wire, _) = state
        .make_request("POST".to_string(), "/raw".to_string())
        .bytes(vec![1, 2, 3])
        .start_send()
        .unwrap();
    assert_eq!(wire.body, vec![1, 2, 3]);
    assert_eq!(header_value(&wire.headers, "content-type"), None);
}

#[test]
fn default_content_type_comes_from_state() {
    let state = SharedServerState::new(
        "127.0.0.1:3000".to_string(),
        Some("application/xml".to_string()),
        true,
    );
    let (wire, pending) = state
        .make_request("GET".to_string(), "/".to_string())
        .start_send()
        .unwrap();
    assert_eq!(
        header_value(&wire.headers, "content-type").as_deref(),
        Some("application/xml")
    );
    assert!(pending.save_cookies);
}

#[test]
fn explicit_headers_come_through_in_order() {
    let state = server(false);
    let (wire, _) = state
        .make_request("GET".to_string(), "/".to_string())
        .with_header("x-a".to_string(), "1".to_string())
        .with_header("x-a".to_string(), "2".to_string())
        .start_send()
        .unwrap();
    let xs: Vec<&str> = wire
        .headers
        .iter()
        .filter(|(n, _)| n == "x-a")
        .map(|(_, v)| v.as_str())
        .collect();
    assert_eq!(xs, vec!["1", "2"]);
}

#[test]
fn non_ascii_header_value_is_legal() {
    let state = server(false);
    let (wire, _) = state
        .make_request("GET".to_string(), "/".to_string())
        .with_header("x-a".to_string(), "caf\u{00e9}".to_string())
        .start_send()
        .unwrap();
    assert_eq!(header_value(&wire.headers, "x-a").as_deref(), Some("caf\u{00e9}"));
}

#[test]
fn malformed_url_is_a_build_error() {
    let state = SharedServerState::new("bad address".to_string(), None, false);
    let r = state
        .make_request("GET".to_string(), "/x".to_string())
        .start_send();
    match r {
        Err(HarnessError::RequestBuildError { value }) => {
            assert_eq!(value, "http://bad address/x");
        }
        other => panic!("expected a build error, got ok: {}", other.is_ok()),
    }
}

#[test]
fn illegal_header_value_is_a_build_error() {
    let state = server(false);
    let r = state
        .make_request("GET".to_string(), "/".to_string())
        .with_header("x-a".to_string(), "bad\u{0007}value".to_string())
        .start_send();
    assert!(matches!(r, Err(HarnessError::RequestBuildError { .. })));
}

#[test]
fn saved_cookie_is_sent_by_next_request() {
    let state = server(false);
    let (_, pending) = state
        .make_request("GET".to_string(), "/login".to_string())
        .do_save_cookies()
        .start_send()
        .unwrap();
    pending
        .finish(200, vec![("set-cookie".to_string(), "a=1".to_string())], Vec::new())
        .unwrap();
    let (wire, _) = state
        .make_request("GET".to_string(), "/profile".to_string())
        .start_send()
        .unwrap();
    assert_eq!(header_value(&wire.headers, "cookie").as_deref(), Some("a=1"));
}

#[test]
fn cleared_state_yields_cookieless_requests() {
    let state = server(true);
    let (_, pending) = state
        .make_request("GET".to_string(), "/login".to_string())
        .start_send()
        .unwrap();
    pending
        .finish(200, vec![("set-cookie".to_string(), "a=1".to_string())], Vec::new())
        .unwrap();
    state.clear_cookies();
    let (wire, _) = state
        .make_request("GET".to_string(), "/profile".to_string())
        .start_send()
        .unwrap();
    assert_eq!(header_value(&wire.headers, "cookie"), None);
    assert_eq!(state.read_cookies().len(), 0);
}

#[test]
fn not_saving_leaves_jar_unchanged() {
    let state = server(true);
    let (_, pending) = state
        .make_request("GET".to_string(), "/login".to_string())
        .do_not_save_cookies()
        .start_send()
        .unwrap();
    pending
        .finish(200, vec![("set-cookie".to_string(), "a=1".to_string())], Vec::new())
        .unwrap();
    assert_eq!(state.read_cookies().len(), 0);
}

#[test]
fn two_responses_with_distinct_cookies_keep_both() {
    let state = server(true);
    let (_, pending1) = state
        .make_request("GET".to_string(), "/one".to_string())
        .start_send()
        .unwrap();
    let (_, pending2) = state
        .make_request("GET".to_string(), "/two".to_string())
        .start_send()
        .unwrap();
    pending1
        .finish(200, vec![("set-cookie".to_string(), "a=1".to_string())], Vec::new())
        .unwrap();
    pending2
        .finish(200, vec![("set-cookie".to_string(), "b=2".to_string())], Vec::new())
        .unwrap();
    let jar = state.read_cookies();
    assert_eq!(jar.lookup("a").map(String::as_str), Some("1"));
    assert_eq!(jar.lookup("b").map(String::as_str), Some("2"));
}

#[test]
fn same_name_cookie_is_replaced_not_duplicated() {
    let state = server(true);
    let headers = vec![
        ("set-cookie".to_string(), "a=1".to_string()),
        ("set-cookie".to_string(), "a=2".to_string()),
    ];
    let (_, pending) = state
        .make_request("GET".to_string(), "/".to_string())
        .start_send()
        .unwrap();
    pending.finish(200, headers, Vec::new()).unwrap();
    let jar = state.read_cookies();
    assert_eq!(jar.len(), 1);
    assert_eq!(jar.lookup("a").map(String::as_str), Some("2"));
}

#[test]
fn unparsable_set_cookie_surfaces_and_keeps_prior_merges() {
    let state = server(true);
    let headers = vec![
        ("set-cookie".to_string(), "a=1".to_string()),
        ("set-cookie".to_string(), "".to_string()),
        ("set-cookie".to_string(), "b=2".to_string()),
    ];
    let (_, pending) = state
        .make_request("GET".to_string(), "/".to_string())
        .start_send()
        .unwrap();
    let r = pending.finish(200, headers, Vec::new());
    match r {
        Err(HarnessError::CookieParseError { header }) => assert_eq!(header, ""),
        other => panic!("expected a cookie parse error, got {:?}", other.is_ok()),
    }
    let jar = state.read_cookies();
    assert_eq!(jar.lookup("a").map(String::as_str), Some("1"));
    assert!(jar.lookup("b").is_none());
}

#[test]
fn local_cookie_builders_do_not_touch_state() {
    let state = server(true);
    state.add_cookie(Cookie::new("keep".to_string(), "me".to_string()));
    let (wire, _) = state
        .make_request("GET".to_string(), "/".to_string())
        .clear_cookies()
        .add_cookie(Cookie::new("local".to_string(), "only".to_string()))
        .start_send()
        .unwrap();
    assert_eq!(header_value(&wire.headers, "cookie").as_deref(), Some("local=only"));
    let jar = state.read_cookies();
    assert_eq!(jar.len(), 1);
    assert_eq!(jar.lookup("keep").map(String::as_str), Some("me"));
}

#[test]
fn cookie_header_joins_pairs_in_order() {
    let state = server(true);
    state.add_cookie(Cookie::new("a".to_string(), "1".to_string()));
    state.add_cookie(Cookie::new("b".to_string(), "2".to_string()));
    let (wire, _) = state
        .make_request("GET".to_string(), "/".to_string())
        .start_send()
        .unwrap();
    assert_eq!(header_value(&wire.headers, "cookie").as_deref(), Some("a=1; b=2"));
}

#[test]
fn read_cookies_is_a_defensive_copy() {
    let state = server(true);
    state.add_cookie(Cookie::new("a".to_string(), "1".to_string()));
    let mut copy = state.read_cookies();
    copy.clear();
    assert_eq!(state.read_cookies().len(), 1);
}

#[test]
fn read_address_returns_construction_address() {
    let state = server(false);
    assert_eq!(state.read_address(), "127.0.0.1:3000");
}

#[test]
fn error_labels_name_their_stage() {
    assert_eq!(HarnessError::BindError.describe(), "bind error");
    assert_eq!(HarnessError::ServerStartError.describe(), "server start error");
    assert_eq!(HarnessError::StateLockError.describe(), "state lock error");
    assert_eq!(
        HarnessError::CookieParseError { header: "x".to_string() }.describe(),
        "cookie parse error"
    );
    assert_eq!(
        HarnessError::RequestBuildError { value: "x".to_string() }.describe(),
        "request build error"
    );
    assert_eq!(
        HarnessError::TransportError { detail: "x".to_string() }.describe(),
        "transport error"
    );
}

#[test]
fn cookie_attributes_are_not_persisted() {
    let state = server(true);
    let (_, pending) = state
        .make_request("GET".to_string(), "/".to_string())
        .start_send()
        .unwrap();
    pending
        .finish(
            200,
            vec![("set-cookie".to_string(), "a=1; Path=/; HttpOnly".to_string())],
            Vec::new(),
        )
        .unwrap();
    let jar = state.read_cookies();
    assert_eq!(jar.lookup("a").map(String::as_str), Some("1"));
    let (wire, _) = state
        .make_request("GET".to_string(), "/".to_string())
        .start_send()
        .unwrap();
    assert_eq!(header_value(&wire.headers, "cookie").as_deref(), Some("a=1"));
}

#[test]
fn empty_cookie_value_round_trips() {
    let state = server(true);
    let (_, pending) = state
        .make_request("GET".to_string(), "/".to_string())
        .start_send()
        .unwrap();
    pending
        .finish(200, vec![("set-cookie".to_string(), "a=".to_string())], Vec::new())
        .unwrap();
    let jar = state.read_cookies();
    assert_eq!(jar.lookup("a").map(String::as_str), Some(""));
}

#[test]
fn login_then_profile_round_trip() {
    let state = server(false);

    // GET /login with cookie saving on; the simulated server echoes a
    // session cookie.
    let (wire, pending) = state
        .make_request("GET".to_string(), "/login".to_string())
        .do_save_cookies()
        .start_send()
        .unwrap();
    assert_eq!(wire.url, "http://127.0.0.1:3000/login");
    let response = pending
        .finish(
            200,
            vec![("set-cookie".to_string(), "session=abc".to_string())],
            b"welcome".to_vec(),
        )
        .unwrap();
    assert_eq!(response.status, 200);
    assert_eq!(response.path, "/login");
    assert_eq!(response.body, b"welcome".to_vec());
    let jar = state.read_cookies();
    assert_eq!(jar.lookup("session").map(String::as_str), Some("abc"));

    // Follow-up GET /profile carries the session cookie out again.
    let (wire, _) = state
        .make_request("GET".to_string(), "/profile".to_string())
        .start_send()
        .unwrap();
    assert_eq!(header_value(&wire.headers, "cookie").as_deref(), Some("session=abc"));
}
