use stellux::mcp::auth::{
    check_mcp_access, generate_mcp_token, hash_secret, issue_mcp_token, last_four_chars,
    mask_token, parse_rotated_at, resolve_mcp_endpoint, settings_response, verify_secret,
    McpAccess, McpRuntimeConfig,
};
use stellux::error::ApiError;

#[test]
fn token_mask_uses_last_four_digits() {
    assert_eq!(mask_token("abcd"), "********abcd");
}

#[test]
fn hashed_secret_can_be_verified() {
    let token = "ddb_mcp_test_secret";
    let hash = hash_secret(token).expect("token should hash");
    assert!(verify_secret(token, &hash).expect("token should verify"));
    assert!(!verify_secret("wrong-token", &hash).expect("wrong token should fail"));
}

#[test]
fn runtime_config_detects_initialized_token() {
    let config = McpRuntimeConfig {
        enabled: true,
        token_hash: Some("hash".to_string()),
        token_last_four: Some("1234".to_string()),
        token_rotated_at: None,
    };
    assert!(config.token_initialized());

    let empty = McpRuntimeConfig {
        enabled: true,
        token_hash: Some(String::new()),
        token_last_four: None,
        token_rotated_at: None,
    };
    assert!(!empty.token_initialized());
}

#[test]
fn runtime_config_without_hash_is_not_initialized() {
    let none = McpRuntimeConfig {
        enabled: true,
        token_hash: None,
        token_last_four: None,
        token_rotated_at: None,
    };
    assert!(!none.token_initialized());
}

#[test]
fn runtime_config_enabled_unless_stored_otherwise() {
    assert!(McpRuntimeConfig::from_settings(None, None, None, None).enabled);
    assert!(McpRuntimeConfig::from_settings(Some("true".to_string()), None, None, None).enabled);
    assert!(!McpRuntimeConfig::from_settings(Some("false".to_string()), None, None, None).enabled);
    assert!(!McpRuntimeConfig::from_settings(Some("TRUE".to_string()), None, None, None).enabled);
}

fn is_lower_hex(c: char) -> bool {
    c.is_ascii_digit() || ('a'..='f').contains(&c)
}

#[test]
fn generated_token_has_prefix_and_hex_body() {
    let t = generate_mcp_token();
    assert_eq!(t.len(), 72);
    assert!(t.starts_with("ddb_mcp_"));
    assert!(t[8..].chars().all(is_lower_hex));
    let u = generate_mcp_token();
    assert_ne!(t, u);
}

#[test]
fn wrong_secret_is_rejected_and_bad_hash_is_an_error() {
    let hash = hash_secret("s3cret").unwrap();
    assert_eq!(verify_secret("s3cret", &hash).unwrap(), true);
    assert_eq!(verify_secret("s3cret!", &hash).unwrap(), false);
    match verify_secret("s3cret", "not a phc string") {
        Err(ApiError::InternalError(m)) => assert_eq!(m, "MCP token verification failed"),
        _ => panic!("expected an internal error"),
    }
}

#[test]
fn issued_token_verifies_and_is_masked() {
    let issued = issue_mcp_token().unwrap();
    assert!(issued.token.starts_with("ddb_mcp_"));
    assert!(verify_secret(&issued.token, &issued.token_hash).unwrap());
    assert_eq!(issued.last_four, issued.token[68..]);
    assert_eq!(issued.token_masked, format!("********{}", issued.last_four));
}

#[test]
fn last_four_of_short_and_long_texts() {
    assert_eq!(last_four_chars("ab"), "ab");
    assert_eq!(last_four_chars("abcdef"), "cdef");
    assert_eq!(last_four_chars("令牌一二三四"), "一二三四");
}

fn runtime_with_hash(hash: &str) -> McpRuntimeConfig {
    McpRuntimeConfig {
        enabled: true,
        token_hash: Some(hash.to_string()),
        token_last_four: None,
        token_rotated_at: None,
    }
}

fn denied(a: McpAccess) -> (u16, String) {
    match a {
        McpAccess::Deny(s, m) => (s, m),
        McpAccess::Allow => (0, String::new()),
    }
}

#[test]
fn access_decisions() {
    let hash = hash_secret("tok").unwrap();
    let ok = runtime_with_hash(&hash);
    assert!(matches!(check_mcp_access(Some(&ok), Some("Bearer tok")), McpAccess::Allow));
    assert_eq!(
        denied(check_mcp_access(Some(&ok), Some("Bearer other"))),
        (401, "Invalid MCP token".to_string())
    );
    assert_eq!(
        denied(check_mcp_access(Some(&ok), Some("Basic tok"))),
        (401, "Missing or invalid Authorization header".to_string())
    );
    assert_eq!(
        denied(check_mcp_access(Some(&ok), None)),
        (401, "Missing or invalid Authorization header".to_string())
    );
    let mut off = runtime_with_hash(&hash);
    off.enabled = false;
    assert_eq!(denied(check_mcp_access(Some(&off), Some("Bearer tok"))), (404, "MCP is disabled".to_string()));
    let uninit = runtime_with_hash("");
    assert_eq!(
        denied(check_mcp_access(Some(&uninit), Some("Bearer tok"))),
        (401, "MCP token not initialized".to_string())
    );
    let broken = runtime_with_hash("garbage");
    assert_eq!(
        denied(check_mcp_access(Some(&broken), Some("Bearer tok"))),
        (500, "MCP token verification failed".to_string())
    );
    assert_eq!(
        denied(check_mcp_access(None, Some("Bearer tok"))),
        (500, "Failed to load MCP configuration".to_string())
    );
}

#[test]
fn endpoint_from_headers_or_server_address() {
    assert_eq!(
        resolve_mcp_endpoint(Some("https".to_string()), Some(Some("blog.example.com".to_string())), None, "0.0.0.0", 8080),
        "https://blog.example.com/mcp"
    );
    assert_eq!(
        resolve_mcp_endpoint(None, None, Some(Some("host:3000".to_string())), "0.0.0.0", 8080),
        "http://host:3000/mcp"
    );
    assert_eq!(resolve_mcp_endpoint(None, None, None, "0.0.0.0", 8080), "http://localhost:8080/mcp");
    assert_eq!(resolve_mcp_endpoint(None, None, None, "::", 80), "http://localhost/mcp");
    assert_eq!(
        resolve_mcp_endpoint(Some("https".to_string()), None, None, "example.org", 443),
        "https://example.org/mcp"
    );
    assert_eq!(
        resolve_mcp_endpoint(Some("https".to_string()), None, None, "example.org", 80),
        "https://example.org:80/mcp"
    );
    // An unreadable forwarded host falls back to the server, not to Host.
    assert_eq!(
        resolve_mcp_endpoint(None, Some(None), Some(Some("h".to_string())), "10.0.0.1", 8080),
        "http://10.0.0.1:8080/mcp"
    );
}

#[test]
fn rotation_time_is_read_from_rfc3339() {
    let t = parse_rotated_at(Some("2024-01-02T03:04:05Z")).unwrap();
    assert_eq!(t.secs, 1704164645);
    assert_eq!(t.nanos, 0);
    let t2 = parse_rotated_at(Some("2024-01-02T11:04:05.5+08:00")).unwrap();
    assert_eq!(t2.secs, 1704164645);
    assert_eq!(t2.nanos, 500_000_000);
    assert!(parse_rotated_at(Some("")).is_none());
    assert!(parse_rotated_at(Some("yesterday")).is_none());
    assert!(parse_rotated_at(None).is_none());
}

#[test]
fn settings_response_masks_and_reads_rotation() {
    let c = McpRuntimeConfig {
        enabled: false,
        token_hash: Some("h".to_string()),
        token_last_four: Some("9f3a".to_string()),
        token_rotated_at: Some("2024-01-02T03:04:05Z".to_string()),
    };
    let r = settings_response(&c, "http://x/mcp".to_string());
    assert!(!r.enabled);
    assert!(r.token_initialized);
    assert_eq!(r.endpoint, "http://x/mcp");
    assert_eq!(r.token_masked.as_deref(), Some("********9f3a"));
    assert_eq!(r.token_last_rotated_at.unwrap().secs, 1704164645);
}
