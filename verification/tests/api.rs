use aj_web::api::{
    api_base, auth_header, endpoint, error_with_detail, feed_subscription, is_heartbeat,
    server_failure, token_from_body, with_id, ws_heartbeat, ws_url,
};
use aj_web::errors::{AdaJudgeError, AuthError};

#[test]
fn base_url_default_and_configured() {
    assert_eq!(api_base(None), "https://aj-host.oneprog.org");
    assert_eq!(api_base(Some("http://localhost:8080")), "http://localhost:8080");
}

#[test]
fn bearer_header() {
    assert_eq!(auth_header(&Some("abc".to_string())), Some("Bearer abc".to_string()));
    assert_eq!(auth_header(&None), None);
}

#[test]
fn endpoints_and_ids() {
    assert_eq!(endpoint("https://h", "/contests"), "https://h/contests");
    assert_eq!(with_id("/contests/", 42, "/posts"), "/contests/42/posts");
    assert_eq!(with_id("/users/", -1, ""), "/users/-1");
}

#[test]
fn token_body_loses_quotes() {
    assert_eq!(token_from_body("\"abc.def\""), "abc.def");
    assert_eq!(token_from_body("plain"), "plain");
    assert_eq!(token_from_body("\"\"x\"\""), "x");
    assert_eq!(token_from_body("\"\""), "");
}

#[test]
fn failure_messages() {
    assert_eq!(
        error_with_detail("en", "Сетевая ошибка", "Network error", "timeout"),
        "Network error: timeout"
    );
    assert_eq!(server_failure("ru", &None, "502 Bad Gateway"), "Ошибка сервера: 502 Bad Gateway");
    assert_eq!(
        server_failure("en", &Some(AdaJudgeError::Auth(AuthError::AlreadyExists)), "409"),
        "User already exists"
    );
}

#[test]
fn websocket_urls() {
    assert_eq!(
        ws_url("https://aj-host.oneprog.org", "/contests/ws", &None),
        "wss://aj-host.oneprog.org/contests/ws"
    );
    assert_eq!(
        ws_url("http://localhost:8080/", "/contests/3/ws", &Some("t0k".to_string())),
        "ws://localhost:8080/contests/3/ws?token=t0k"
    );
    assert_eq!(ws_url("https://https://h//", "/x", &None), "wss://h/x");
}

#[test]
fn heartbeat_and_feeds() {
    assert_eq!(ws_heartbeat(), "__ping__");
    assert!(is_heartbeat("__ping__"));
    assert!(!is_heartbeat("{\"NewPost\":{}}"));
    assert_eq!(feed_subscription(false), (-1, "/contests/ws"));
    assert_eq!(feed_subscription(true), (-2, "/contests/my/ws"));
}
