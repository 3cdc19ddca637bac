use easytex::server::{
    resolve_root,
    build_timeout_secs, cors_policy, history_path, is_sensitive_header, redacted_header, requested_root,
    response_log, session_expired, session_ttl_secs, slow_request, CorsPolicy,
};

#[test]
fn test_redacted_headers_hide_sensitive_values() {
    let headers = vec![
        ("authorization", "Bearer secret"),
        ("cookie", "session=secret"),
        ("x-api-key", "secret-key"),
        ("x-custom-token", "custom-secret"),
        ("user-agent", "EasyTexTest"),
    ];
    let redacted: Vec<(String, String)> =
        headers.iter().map(|(name, value)| redacted_header(name, Some(value))).collect();
    assert!(redacted.contains(&("authorization".into(), "[REDACTED]".into())));
    assert!(redacted.contains(&("cookie".into(), "[REDACTED]".into())));
    assert!(redacted.contains(&("x-api-key".into(), "[REDACTED]".into())));
    assert!(redacted.contains(&("x-custom-token".into(), "[REDACTED]".into())));
    assert!(redacted.contains(&("user-agent".into(), "EasyTexTest".into())));
}

#[test]
fn sensitive_header_names() {
    assert!(is_sensitive_header("Set-Cookie"));
    assert!(is_sensitive_header("Proxy-Authorization"));
    assert!(is_sensitive_header("X-My-Password"));
    assert!(is_sensitive_header("X-EasyTex-Admin-Token"));
    assert!(!is_sensitive_header("accept"));
    assert_eq!(redacted_header("accept", None), ("accept".to_string(), "[NON_UTF8]".to_string()));
    assert_eq!(redacted_header("cookie", None), ("cookie".to_string(), "[REDACTED]".to_string()));
}

#[test]
fn root_and_history_paths() {
    assert_eq!(history_path("/srv", ".easytex-history.json"), "/srv/.easytex-history.json");
    assert_eq!(history_path("/srv", "/var/lib/h.json"), "/var/lib/h.json");
    assert_eq!(requested_root(".", "/srv/tex"), "/srv/tex");
    assert_eq!(requested_root("projects", "/srv/tex"), "projects");
}

#[test]
fn cors_policies() {
    let any = vec!["https://a.example".to_string(), " * ".to_string()];
    assert!(matches!(cors_policy(&any), CorsPolicy::AnyOrigin));
    let some = vec!["https://a.example".to_string(), "bad\u{7f}".to_string()];
    match cors_policy(&some) {
        CorsPolicy::Origins(v) => assert_eq!(v, vec!["https://a.example".to_string()]),
        _ => panic!("expected a list of origins"),
    }
    assert!(matches!(cors_policy(&Vec::new()), CorsPolicy::Unset));
    assert!(matches!(cors_policy(&vec!["\n".to_string()]), CorsPolicy::Unset));
}

#[test]
fn request_logging_and_sessions() {
    assert_eq!(response_log(503), ("HTTP request failed", true));
    assert_eq!(response_log(404), ("HTTP request rejected", true));
    assert_eq!(response_log(200), ("HTTP request completed", false));
    assert!(slow_request(501));
    assert!(!slow_request(500));
    assert_eq!(session_ttl_secs(24), 86_400);
    assert_eq!(build_timeout_secs(15), 900);
    assert!(session_expired(86_400_000_000_001, 86_400));
    assert!(!session_expired(86_400_000_000_000, 86_400));
}

#[test]
fn resolving_the_root() {
    assert_eq!(resolve_root(".", "/"), Ok("/".to_string()));
    assert_eq!(resolve_root("/", "/nowhere"), Ok("/".to_string()));
    assert_eq!(
        resolve_root(".", "/no/such/easytex/root"),
        Err("Failed to access ROOT_DIR '/no/such/easytex/root'. Ensure the path exists.".to_string())
    );
}
