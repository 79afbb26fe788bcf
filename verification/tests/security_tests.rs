use rust_edge_compute::error::{
    handle_error, ContainerError, EdgeComputeError, ErrorHandler, ErrorSeverity, RecoveryStrategy,
};
use rust_edge_compute::security::{
    generate_secure_token, hash_password, sanitize_input, token_of_bytes, verify_password, InputValidator,
    PermissionChecker,
    JsonShape, RateLimiter, SecurityConfig, SecurityContext, SecurityError, SecurityMiddleware, UserSession,
};

fn session(perms: &[&str]) -> Option<UserSession> {
    Some(UserSession {
        user_id: "u1".to_string(),
        username: "alice".to_string(),
        roles: vec!["user".to_string()],
        permissions: perms.iter().map(|p| p.to_string()).collect(),
        created_at: std::time::SystemTime::UNIX_EPOCH,
        expires_at: std::time::SystemTime::UNIX_EPOCH,
    })
}

fn context(ip: Option<&str>, path: &str, method: &str) -> SecurityContext {
    SecurityContext {
        session: None,
        client_ip: ip.map(|s| s.to_string()),
        user_agent: None,
        path: path.to_string(),
        method: method.to_string(),
    }
}

fn validation(r: Result<(), SecurityError>) -> (String, String) {
    match r {
        Err(SecurityError::ValidationError { field, message }) => (field, message),
        other => panic!("expected a validation error, got {:?}", other),
    }
}

#[test]
fn security_defaults() {
    let c = SecurityConfig::default();
    assert!(!c.enable_authentication);
    assert_eq!(c.requests_per_minute, 60);
    assert_eq!(c.burst_size, 10);
    assert_eq!(c.allowed_origins, vec!["*".to_string()]);
    assert_eq!(c.default_role, "user");
}

#[test]
fn algorithm_names_are_checked_in_order() {
    assert!(InputValidator::validate_algorithm_name("vibrate31_v-2").is_ok());
    assert_eq!(validation(InputValidator::validate_algorithm_name("")), ("algorithm".into(), "Algorithm name cannot be empty".into()));
    let long = "a".repeat(101);
    assert_eq!(validation(InputValidator::validate_algorithm_name(&long)).1, "Algorithm name too long");
    assert_eq!(validation(InputValidator::validate_algorithm_name("rm -rf")).1, "Algorithm name contains invalid characters");
}

#[test]
fn task_ids_may_not_name_paths() {
    assert!(InputValidator::validate_task_id("task-1").is_ok());
    assert_eq!(validation(InputValidator::validate_task_id("")).1, "Task ID cannot be empty");
    assert_eq!(validation(InputValidator::validate_task_id(&"x".repeat(257))).1, "Task ID too long");
    assert_eq!(validation(InputValidator::validate_task_id("../etc")).1, "Task ID contains invalid characters");
    assert_eq!(validation(InputValidator::validate_task_id("a\\b")).1, "Task ID contains invalid characters");
}

#[test]
fn permissions_follow_the_configuration() {
    let mut config = SecurityConfig::default();
    assert!(PermissionChecker::check_algorithm_permission(&None, "add", &config).is_ok());
    config.enable_authorization = true;
    match PermissionChecker::check_algorithm_permission(&None, "add", &config) {
        Err(SecurityError::AuthorizationError { message, permission, resource }) => {
            assert_eq!(message, "No active session");
            assert_eq!(permission, "execute:add");
            assert_eq!(resource, "add");
        }
        other => panic!("unexpected {:?}", other),
    }
    assert!(PermissionChecker::check_algorithm_permission(&session(&["execute:add"]), "add", &config).is_ok());
    assert!(PermissionChecker::check_algorithm_permission(&session(&["execute:mul"]), "add", &config).is_err());
    assert!(PermissionChecker::check_admin_permission(&session(&["admin:*"])).is_ok());
    match PermissionChecker::check_admin_permission(&session(&[])) {
        Err(SecurityError::AuthorizationError { message, .. }) => {
            assert_eq!(message, "User alice does not have admin permissions")
        }
        other => panic!("unexpected {:?}", other),
    }
}

#[test]
fn markup_is_escaped() {
    assert_eq!(sanitize_input("<b>"), "&lt;b&gt;");
    assert_eq!(sanitize_input("<b>\"x\" & 'y'</b>"), "&lt;b&gt;&quot;x&quot; &amp; &#x27;y&#x27;&lt;/b&gt;");
    assert_eq!(sanitize_input("&lt;"), "&amp;lt;");
    assert_eq!(sanitize_input("plain"), "plain");
    let out = sanitize_input("<script>");
    assert!(!out.contains('<') && !out.contains('>'));
}

#[test]
fn rate_limit_counts_per_minute() {
    let mut limiter = RateLimiter::new(2, 1);
    assert_eq!(limiter.check_rate_limit("1.2.3.4", 0).unwrap(), true);
    assert_eq!(limiter.check_rate_limit("1.2.3.4", 10).unwrap(), true);
    assert_eq!(limiter.check_rate_limit("1.2.3.4", 20).unwrap(), false);
    assert_eq!(limiter.check_rate_limit("5.6.7.8", 20).unwrap(), true);
    assert_eq!(limiter.get_client_stats("1.2.3.4", 30_000), (2, 30));
    assert_eq!(limiter.check_rate_limit("1.2.3.4", 60_000).unwrap(), true);
    assert_eq!(limiter.get_client_stats("unknown", 0), (0, 60));
    limiter.cleanup_expired(200_000);
    assert_eq!(limiter.get_client_stats("1.2.3.4", 200_000), (0, 60));
}

#[test]
fn middleware_limits_and_validates() {
    let config = SecurityConfig { requests_per_minute: 1, ..SecurityConfig::default() };
    let mut m = SecurityMiddleware::new(config);
    assert!(m.process_request(&context(Some("9.9.9.9"), "/api/tasks", "GET"), 0).is_ok());
    match m.process_request(&context(Some("9.9.9.9"), "/api/tasks", "GET"), 1) {
        Err(SecurityError::RateLimitExceeded { client_ip, limit }) => {
            assert_eq!(client_ip, "9.9.9.9");
            assert_eq!(limit, 1);
        }
        other => panic!("unexpected {:?}", other),
    }
    assert_eq!(validation(SecurityMiddleware::validate_request(&context(None, "/a/../b", "GET"))), ("path".into(), "Invalid path format".into()));
    assert_eq!(validation(SecurityMiddleware::validate_request(&context(None, "/a", "PATCH"))).0, "method");
    assert_eq!(m.get_rate_limit_stats("9.9.9.9", 1000), Some((1, 59)));
}

#[test]
fn tokens_are_base64_of_the_requested_length() {
    let t = generate_secure_token(32).expect("system randomness");
    assert_eq!(t.len(), 44);
    assert!(t.chars().all(|c| c.is_ascii_alphanumeric() || c == '+' || c == '/' || c == '='));
}

#[test]
fn passwords_verify_against_their_hash() {
    let salt = b"0123456789abcdef";
    let h = hash_password("s3cret!", salt);
    assert_eq!(h.len(), 32);
    assert!(verify_password("s3cret!", salt, &h));
    assert!(!verify_password("s3cret?", salt, &h));
    assert!(!verify_password("s3cret!", b"other salt", &h));
}

#[test]
fn error_texts_and_status_codes() {
    let e = EdgeComputeError::Config { message: "bad".to_string(), source: None };
    assert_eq!(e.to_message(), "Configuration error: bad");
    assert_eq!(e.kind_label(), "Config");
    assert_eq!(e.severity(), ErrorSeverity::High);
    assert_eq!(handle_error(&e).0, 400);
    let io = EdgeComputeError::Io { message: "disk".to_string(), operation: None, path: None };
    assert_eq!(io.to_message(), "I/O error: disk");
    let c = ContainerError::NotFound { id: "c1".to_string() }.into_edge_error();
    match c {
        EdgeComputeError::Container { message, .. } => assert!(message.contains("c1")),
        other => panic!("unexpected {:?}", other),
    }
}

#[test]
fn error_handler_counts_and_chooses_strategies() {
    let mut h = ErrorHandler::new();
    let net = EdgeComputeError::Network { message: "down".to_string(), host: None, port: None };
    let s = h.handle_error(&net, 5);
    assert!(matches!(s, RecoveryStrategy::Retry { .. }));
    let unknown = EdgeComputeError::Unknown { message: "?".to_string(), context: None };
    let s2 = h.get_recovery_strategy(&unknown);
    assert!(matches!(s2, RecoveryStrategy::NoRecovery));
    h.reset_stats(10);
}

#[test]
fn error_stats_report_counts_and_recent_records() {
    let mut h = ErrorHandler::new();
    let net = EdgeComputeError::Network { message: "down".to_string(), host: None, port: None };
    let _ = h.record_error(&net, "e1".to_string(), 5);
    let _ = h.record_error(&net, "e2".to_string(), 7);
    let st = h.get_stats();
    assert_eq!(st.error_counts.get("Network"), Some(&2));
    assert_eq!(st.recent_errors.len(), 2);
    assert_eq!(st.recent_errors[0].id, "e1");
    assert_eq!(st.recent_errors[1].id, "e2");
    assert_eq!(st.recent_errors[1].timestamp_ms, 7);
    assert_eq!(st.last_updated_ms, 7);
}

fn nested_shape(levels: usize) -> JsonShape {
    let mut s = JsonShape::Leaf;
    for i in 0..levels {
        s = if i % 2 == 0 { JsonShape::Array(vec![s]) } else { JsonShape::Object(vec![JsonShape::Leaf, s]) };
    }
    s
}

fn nested_value(levels: usize) -> serde_json::Value {
    let mut v = serde_json::Value::from(1);
    for _ in 0..levels {
        v = serde_json::Value::Array(vec![v]);
    }
    v
}

#[test]
fn json_params_are_limited_in_size_and_nesting() {
    assert!(InputValidator::check_json_params(10, &JsonShape::Leaf).is_ok());
    // Empty containers add no level.
    assert!(InputValidator::check_json_params(2, &JsonShape::Array(vec![])).is_ok());
    assert!(InputValidator::check_json_params(100, &nested_shape(10)).is_ok());
    assert_eq!(validation(InputValidator::check_json_params(100, &nested_shape(11))).1, "Parameters nesting too deep");
    assert_eq!(
        validation(InputValidator::check_json_params(1024 * 1024 + 1, &JsonShape::Leaf)),
        ("parameters".into(), "Parameters too large".into())
    );
    assert!(InputValidator::check_json_params(1024 * 1024, &JsonShape::Leaf).is_ok());
    // Only the deepest member counts.
    let wide = JsonShape::Object(vec![nested_shape(3), JsonShape::Leaf, nested_shape(9), nested_shape(1)]);
    assert!(InputValidator::check_json_params(100, &wide).is_ok());
    let deep = JsonShape::Object(vec![JsonShape::Leaf, nested_shape(10)]);
    assert!(InputValidator::check_json_params(100, &deep).is_err());
}

#[test]
fn json_params_from_values() {
    let mut m = serde_json::Map::new();
    m.insert("a".to_string(), serde_json::Value::from(1));
    m.insert("b".to_string(), nested_value(3));
    assert!(InputValidator::validate_json_params(&serde_json::Value::Object(m)).is_ok());
    assert!(InputValidator::validate_json_params(&nested_value(10)).is_ok());
    assert_eq!(validation(InputValidator::validate_json_params(&nested_value(11))).1, "Parameters nesting too deep");
    let big = serde_json::Value::from("x".repeat(1024 * 1024));
    assert_eq!(validation(InputValidator::validate_json_params(&big)).1, "Parameters too large");
}

#[test]
fn tokens_are_the_base64_of_the_given_bytes() {
    assert_eq!(token_of_bytes(Some(vec![0u8, 1, 2])), Some("AAEC".to_string()));
    assert_eq!(token_of_bytes(Some(vec![])), Some(String::new()));
    assert_eq!(token_of_bytes(None), None);
}

#[test]
fn a_minute_admits_exactly_the_limit() {
    let mut limiter = RateLimiter::new(3, 100);
    let answers: Vec<bool> = (0..6u64).map(|i| limiter.check_rate_limit("1.1.1.1", 1000 + i * 10_000).unwrap()).collect();
    assert_eq!(answers, vec![true, true, true, false, false, false]);
    assert!(limiter.check_rate_limit("2.2.2.2", 50_000).unwrap());
    assert_eq!(limiter.get_client_stats("1.1.1.1", 51_000).0, 3);
    // A new minute starts counting afresh.
    assert!(limiter.check_rate_limit("1.1.1.1", 61_000).unwrap());
}
