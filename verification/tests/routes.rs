use workers_connect::routes::{parse_query, try_handle, RouteReply, STATUS_BAD_REQUEST, STATUS_OK};

fn request(method: http::Method, uri: &str) -> Option<RouteReply> {
    let uri: http::Uri = uri.parse().unwrap();
    try_handle(method.as_str(), uri.path(), uri.query())
}

#[test]
fn healthz_returns_ok() {
    let resp = request(http::Method::GET, "/healthz").expect("healthz must match");
    assert_eq!(resp.status, http::StatusCode::OK.as_u16());
    assert_eq!(resp.body, "ok");
}

#[test]
fn healthz_wrong_method_defers() {
    assert!(request(http::Method::POST, "/healthz").is_none());
}

#[test]
fn oauth_callback_echoes_code_and_state() {
    let resp = request(http::Method::GET, "/oauth/callback?code=abc&state=xyz").unwrap();
    assert_eq!(resp.status, http::StatusCode::OK.as_u16());
    assert_eq!(resp.body, "authorized: code=abc, state=xyz");
}

#[test]
fn oauth_callback_tolerates_missing_state() {
    let resp = request(http::Method::GET, "/oauth/callback?code=abc").unwrap();
    assert_eq!(resp.status, http::StatusCode::OK.as_u16());
    assert_eq!(resp.body, "authorized: code=abc, state=");
}

#[test]
fn oauth_callback_rejects_missing_code() {
    let resp = request(http::Method::GET, "/oauth/callback?state=xyz").unwrap();
    assert_eq!(resp.status, http::StatusCode::BAD_REQUEST.as_u16());
    assert!(resp.body.contains("missing `code`"));
}

#[test]
fn rpc_paths_defer_to_dispatcher() {
    assert!(request(http::Method::POST, "/workers.greet.v1.GreetService/Greet").is_none());
}

#[test]
fn oauth_callback_without_query_is_rejected() {
    let resp = request(http::Method::GET, "/oauth/callback").unwrap();
    assert_eq!(resp.status, STATUS_BAD_REQUEST);
    assert_eq!(resp.body, "missing `code` query parameter");
}

#[test]
fn oauth_callback_last_repeated_key_wins() {
    let resp = request(
        http::Method::GET,
        "/oauth/callback?code=first&state=s1&code=second&junk&state=s2",
    )
    .unwrap();
    assert_eq!(resp.status, STATUS_OK);
    assert_eq!(resp.body, "authorized: code=second, state=s2");
}

#[test]
fn parse_query_splits_at_first_equals_and_drops_bare_keys() {
    let pairs = parse_query("a=1=2&&b&=v&c=");
    let expected: Vec<(String, String)> = vec![
        ("a".into(), "1=2".into()),
        ("".into(), "v".into()),
        ("c".into(), "".into()),
    ];
    assert_eq!(pairs, expected);
    assert!(parse_query("").is_empty());
}

#[test]
fn query_values_are_not_percent_decoded() {
    let resp = request(http::Method::GET, "/oauth/callback?code=a%20b").unwrap();
    assert_eq!(resp.body, "authorized: code=a%20b, state=");
}
