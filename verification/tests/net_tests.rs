use novel_boom_core::config::Config;
use novel_boom_core::error::Error;
use novel_boom_core::net::{
    check_response, detail_suggests_unreachable, is_retryable, join_error_chain,
    map_request_error, proxy_url, request_headers, request_timeout, retry_delay,
};

#[test]
fn maps_timeout_style_message() {
    // Ensure helper keeps Chinese guidance for user-facing paths.
    let err = Error::Http("请求超时 · http://example.com\n原因：timeout\n提示：x".into());
    assert!(is_retryable(&err));
}

#[test]
fn non_http_errors_are_not_retried() {
    assert!(!is_retryable(&Error::Message("timeout".into())));
    assert!(!is_retryable(&Error::Http("HTTP 404 Not Found".into())));
    assert!(is_retryable(&Error::Http("TLS handshake".into())));
}

#[test]
fn failures_are_classified() {
    assert!(detail_suggests_unreachable("Connection Refused"));
    assert!(!detail_suggests_unreachable("404"));
    match map_request_error(false, false, false, "error sending request: operation timed out", "http://a") {
        Error::Http(m) => assert!(m.starts_with("请求超时 · http://a\n原因：error sending request")),
        other => panic!("unexpected: {other:?}"),
    }
    match map_request_error(false, true, false, "x", "http://a") {
        Error::Http(m) => assert!(m.starts_with("无法连接 · http://a")),
        other => panic!("unexpected: {other:?}"),
    }
    match map_request_error(false, false, true, "x", "http://a") {
        Error::Http(m) => assert!(m.starts_with("请求发送失败 · http://a")),
        other => panic!("unexpected: {other:?}"),
    }
    match map_request_error(false, false, false, "x", "http://a") {
        Error::Http(m) => assert_eq!(m, "HTTP 失败 · http://a\n原因：x"),
        other => panic!("unexpected: {other:?}"),
    }
}

#[test]
fn error_chain_is_joined() {
    let parts = vec!["error sending request for url (http://a/)".to_string(), "io".to_string()];
    assert_eq!(join_error_chain(&parts), "error sending request ← io");
    assert_eq!(join_error_chain(&vec![]), "");
}

#[test]
fn retries_back_off_and_stop() {
    let transient = Error::Http("timeout".into());
    assert_eq!(retry_delay(1, 3, &transient), Some(400));
    assert_eq!(retry_delay(2, 3, &transient), Some(800));
    assert_eq!(retry_delay(3, 3, &transient), None);
    assert_eq!(retry_delay(1, 3, &Error::Message("x".into())), None);
    assert_eq!(request_timeout(0), 1);
    assert_eq!(request_timeout(15), 15);
}

#[test]
fn responses_are_checked() {
    assert_eq!(check_response(true, "200 OK", "http://a", "<html>".into()).unwrap(), "<html>");
    match check_response(true, "200 OK", "http://a", "  ".into()) {
        Err(Error::Http(m)) => assert_eq!(m, "响应为空 · http://a\n提示：可能被反爬或搜索限流"),
        other => panic!("unexpected: {other:?}"),
    }
    assert!(matches!(check_response(false, "404", "http://a", "x".into()), Err(Error::Http(_))));
}

#[test]
fn proxy_and_headers() {
    let mut cfg = Config::default();
    assert_eq!(proxy_url(&cfg), None);
    cfg.proxy.enabled = true;
    cfg.proxy.host = " 10.0.0.1 ".into();
    assert_eq!(proxy_url(&cfg), Some("http://10.0.0.1:7890".to_string()));

    let h = request_headers("http://example.com/s?q=1", true, Some("  a=b "), "Agent/1.0");
    assert!(h.contains(&("user-agent".to_string(), "Agent/1.0".to_string())));
    assert_eq!(h[11], ("user-agent".to_string(), "Agent/1.0".to_string()));
    assert!(h.contains(&("sec-fetch-site".to_string(), "same-origin".to_string())));
    assert!(h.contains(&("referer".to_string(), "http://example.com".to_string())));
    assert!(h.contains(&("origin".to_string(), "http://example.com".to_string())));
    assert!(h.contains(&("cookie".to_string(), "a=b".to_string())));
    let g = request_headers("not a url", false, Some("   "), "Agent/1.0");
    assert_eq!(g.len(), 12);

    let w = request_headers(
        "http://www.xbiqugu.la/modules/article/waps.php",
        true,
        Some("  k=v  "),
        "Agent/1.0",
    );
    let get = |name: &str| w.iter().find(|(k, _)| k == name).map(|(_, v)| v.clone());
    assert_eq!(get("referer").as_deref(), Some("http://www.xbiqugu.la"));
    assert_eq!(get("origin").as_deref(), Some("http://www.xbiqugu.la"));
    assert_eq!(get("sec-fetch-site").as_deref(), Some("same-origin"));
    assert_eq!(get("cookie").as_deref(), Some("k=v"));
    assert_eq!(get("user-agent").as_deref(), Some("Agent/1.0"));
}
