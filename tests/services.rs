use api_gateway::config::{GatewayConfig, CACHE_DURATION_SECS, RATE_LIMIT_REQUESTS, RATE_LIMIT_WINDOW_SECS};
use api_gateway::errors::{handle_rejection, Rejection};
use api_gateway::headers::{header_value, names_match, remove_header, set_header};
use api_gateway::middleware::add_cors_headers;
use api_gateway::services::{
    cache_response, check_rate_limit, client_key, get_cached_response, is_authenticated, is_known_token,
};
use api_gateway::{AppState, CacheEntry, GatewayError, RateLimit};

const NOW: u64 = 1_700_000_000;

fn header(name: &str, value: &str) -> (String, String) {
    (name.to_string(), value.to_string())
}

#[test]
fn test_handle_not_found_rejection() {
    let (status, _) = handle_rejection(&Rejection::NotFound);
    assert_eq!(status, 404);
}

#[test]
fn test_handle_rate_limit_rejection() {
    let (status, _) = handle_rejection(&Rejection::Gateway(GatewayError::RateLimitExceeded));
    assert_eq!(status, 429);
}

#[test]
fn test_handle_timeout_rejection() {
    let (status, _) = handle_rejection(&Rejection::Gateway(GatewayError::Timeout));
    assert_eq!(status, 504);
}

#[test]
fn test_handle_unauthorized_rejection() {
    let (status, _) = handle_rejection(&Rejection::Gateway(GatewayError::Unauthorized));
    assert_eq!(status, 401);
}

#[test]
fn test_handle_unknown_rejection() {
    let (status, _) = handle_rejection(&Rejection::Gateway(GatewayError::Http("Unknown error".to_string())));
    assert_eq!(status, 500);
}

#[test]
fn rejection_messages() {
    assert_eq!(handle_rejection(&Rejection::NotFound).1, "Not Found");
    assert_eq!(handle_rejection(&Rejection::Gateway(GatewayError::RateLimitExceeded)).1, "Rate limit exceeded");
    assert_eq!(handle_rejection(&Rejection::Gateway(GatewayError::Timeout)).1, "Gateway timeout");
    assert_eq!(handle_rejection(&Rejection::Gateway(GatewayError::Unauthorized)).1, "Unauthorized");
    let invalid = Rejection::Gateway(GatewayError::InvalidUri("bad".to_string()));
    assert_eq!(handle_rejection(&invalid), (500, "Internal server error".to_string()));
    assert_eq!(handle_rejection(&Rejection::Other), (500, "Internal server error".to_string()));
}

#[test]
fn error_descriptions() {
    assert_eq!(GatewayError::InvalidUri("x y".to_string()).describe(), "Invalid URI: x y");
    assert_eq!(GatewayError::Http("refused".to_string()).describe(), "HTTP Error: refused");
    assert_eq!(GatewayError::RateLimitExceeded.describe(), "Rate limit exceeded");
    assert_eq!(GatewayError::Timeout.describe(), "Request timed out");
    assert_eq!(GatewayError::Unauthorized.describe(), "Unauthorized");
    assert_eq!(GatewayError::InvalidUri(String::new()).status_code(), 500);
}

#[test]
fn test_add_cors_headers() {
    let mut headers: Vec<(String, String)> = Vec::new();
    add_cors_headers(&mut headers);
    assert_eq!(header_value(&headers, "access-control-allow-origin").unwrap(), "*");
    assert_eq!(
        header_value(&headers, "access-control-allow-methods").unwrap(),
        "GET, POST, PUT, DELETE, PATCH, OPTIONS"
    );
    assert_eq!(
        header_value(&headers, "access-control-allow-headers").unwrap(),
        "Content-Type, Authorization"
    );
}

#[test]
fn cors_headers_replace_backend_values() {
    let mut headers = vec![
        header("Access-Control-Allow-Origin", "https://example.com"),
        header("content-type", "application/json"),
        header("access-control-allow-methods", "GET"),
        header("ACCESS-CONTROL-ALLOW-ORIGIN", "https://other.example"),
    ];
    add_cors_headers(&mut headers);
    assert_eq!(
        headers,
        vec![
            header("content-type", "application/json"),
            header("access-control-allow-origin", "*"),
            header("access-control-allow-methods", "GET, POST, PUT, DELETE, PATCH, OPTIONS"),
            header("access-control-allow-headers", "Content-Type, Authorization"),
        ]
    );
}

#[test]
fn header_names_ignore_ascii_case() {
    assert!(names_match("X-Forwarded-For", "x-forwarded-for"));
    assert!(!names_match("x-forwarded-fo", "x-forwarded-for"));
    assert!(!names_match("host", "hose"));
    let headers = vec![header("Host", "a"), header("X-Trace", "1"), header("host", "b")];
    assert_eq!(header_value(&headers, "HOST"), Some("a".to_string()));
    assert_eq!(header_value(&headers, "x-missing"), None);
    let mut removed = headers.clone();
    remove_header(&mut removed, "host");
    assert_eq!(removed, vec![header("X-Trace", "1")]);
    let mut set = headers.clone();
    set_header(&mut set, "x-trace", "2");
    assert_eq!(set, vec![header("Host", "a"), header("host", "b"), header("x-trace", "2")]);
}

#[test]
fn test_rate_limit() {
    let cfg = GatewayConfig::standard();
    let mut state = AppState::new();
    let headers = vec![header("x-forwarded-for", "127.0.0.1")];

    assert!(check_rate_limit(&mut state, &cfg, &headers, NOW));

    let mut window = *state.rate_limits.get("127.0.0.1").unwrap();
    window.count = RATE_LIMIT_REQUESTS;
    state.rate_limits.insert("127.0.0.1".to_string(), window);

    assert!(!check_rate_limit(&mut state, &cfg, &headers, NOW));
}

#[test]
fn test_rate_limit_window_reset() {
    let cfg = GatewayConfig::standard();
    let mut state = AppState::new();
    let headers = vec![header("x-forwarded-for", "127.0.0.1")];
    state.rate_limits.insert(
        "127.0.0.1".to_string(),
        RateLimit { count: RATE_LIMIT_REQUESTS, window_start: NOW - (RATE_LIMIT_WINDOW_SECS + 1) },
    );

    assert!(check_rate_limit(&mut state, &cfg, &headers, NOW));
}

#[test]
fn rate_limit_counts_up_to_the_limit() {
    let mut cfg = GatewayConfig::standard();
    cfg.rate_limit_requests = 3;
    let mut state = AppState::new();
    let headers = vec![header("x-forwarded-for", "10.0.0.1")];
    assert!(check_rate_limit(&mut state, &cfg, &headers, NOW));
    assert!(check_rate_limit(&mut state, &cfg, &headers, NOW + 1));
    assert!(check_rate_limit(&mut state, &cfg, &headers, NOW + 59));
    assert!(!check_rate_limit(&mut state, &cfg, &headers, NOW + 59));
    let w = *state.rate_limits.get("10.0.0.1").unwrap();
    assert_eq!((w.count, w.window_start), (4, NOW));
    assert!(!check_rate_limit(&mut state, &cfg, &headers, NOW + 59));
    assert_eq!(state.rate_limits.get("10.0.0.1").unwrap().count, 5);
    // exactly one window length after the start a new window opens
    assert!(check_rate_limit(&mut state, &cfg, &headers, NOW + 60));
    let w = *state.rate_limits.get("10.0.0.1").unwrap();
    assert_eq!((w.count, w.window_start), (1, NOW + 60));
}

#[test]
fn rate_limit_keys_by_client() {
    let mut cfg = GatewayConfig::standard();
    cfg.rate_limit_requests = 1;
    let mut state = AppState::new();
    let a = vec![header("X-Forwarded-For", "1.1.1.1")];
    let b = vec![header("x-forwarded-for", "2.2.2.2")];
    let anonymous: Vec<(String, String)> = Vec::new();
    assert_eq!(client_key(&a), "1.1.1.1");
    assert_eq!(client_key(&anonymous), "unknown");
    assert!(check_rate_limit(&mut state, &cfg, &a, NOW));
    assert!(check_rate_limit(&mut state, &cfg, &b, NOW));
    assert!(check_rate_limit(&mut state, &cfg, &anonymous, NOW));
    assert!(!check_rate_limit(&mut state, &cfg, &a, NOW));
    assert!(!check_rate_limit(&mut state, &cfg, &anonymous, NOW));
    assert_eq!(state.rate_limits.get("unknown").unwrap().count, 2);
}

#[test]
fn rate_limit_count_saturates() {
    let cfg = GatewayConfig::standard();
    let mut state = AppState::new();
    let headers = vec![header("x-forwarded-for", "9.9.9.9")];
    state.rate_limits.insert("9.9.9.9".to_string(), RateLimit { count: u32::MAX, window_start: NOW });
    assert!(!check_rate_limit(&mut state, &cfg, &headers, NOW));
    assert_eq!(state.rate_limits.get("9.9.9.9").unwrap().count, u32::MAX);
}

#[test]
fn test_cache_operations() {
    let mut state = AppState::new();
    let cache_key = "test_key";
    let status: u16 = 200;
    let headers: Vec<(String, String)> = Vec::new();
    let body = b"test body".to_vec();

    cache_response(&mut state, cache_key, (status, headers.clone(), body.clone()), NOW, CACHE_DURATION_SECS);

    let cached_response = get_cached_response(&state, cache_key, NOW);
    assert!(cached_response.is_some());

    if let Some(response) = cached_response {
        assert_eq!(response.status, status);
        assert_eq!(response.body, body);
    }
}

#[test]
fn test_cache_expiration() {
    let mut state = AppState::new();
    let cache_key = "test_key";
    state.cache.insert(
        cache_key.to_string(),
        CacheEntry { response_parts: (200, Vec::new(), b"test".to_vec()), expires_at: NOW - 1 },
    );

    let cached_response = get_cached_response(&state, cache_key, NOW);
    assert!(cached_response.is_none());
}

#[test]
fn cache_entry_lives_for_its_ttl() {
    let mut state = AppState::new();
    let headers = vec![header("content-type", "text/plain"), header("x-a", "1"), header("x-a", "2")];
    cache_response(&mut state, "k", (201, headers.clone(), b"abc".to_vec()), NOW, 300);
    assert_eq!(state.cache.get("k").unwrap().expires_at, NOW + 300);
    let hit = get_cached_response(&state, "k", NOW + 299).unwrap();
    assert_eq!((hit.status, hit.headers, hit.body), (201, headers, b"abc".to_vec()));
    assert!(get_cached_response(&state, "k", NOW + 300).is_none());
    assert!(get_cached_response(&state, "other", NOW).is_none());
    // a later store under the same key wins
    cache_response(&mut state, "k", (202, Vec::new(), b"new".to_vec()), NOW + 400, 300);
    let hit = get_cached_response(&state, "k", NOW + 401).unwrap();
    assert_eq!((hit.status, hit.body), (202, b"new".to_vec()));
}

#[test]
fn cache_expiry_saturates() {
    let mut state = AppState::new();
    cache_response(&mut state, "k", (200, Vec::new(), Vec::new()), u64::MAX - 5, 300);
    assert_eq!(state.cache.get("k").unwrap().expires_at, u64::MAX);
}

#[test]
fn test_authentication() {
    let tokens = GatewayConfig::standard().auth_tokens;

    let headers = vec![header("authorization", "Invalid")];
    assert!(!is_authenticated(&headers, &tokens));

    let headers = vec![header("authorization", "Bearer invalid-token")];
    assert!(!is_authenticated(&headers, &tokens));

    let headers = vec![header("authorization", "Bearer example-token")];
    assert!(is_authenticated(&headers, &tokens));
}

#[test]
fn authentication_edge_cases() {
    let tokens = GatewayConfig::standard().auth_tokens;
    let none: Vec<(String, String)> = Vec::new();
    assert!(!is_authenticated(&none, &tokens));
    assert!(is_authenticated(&vec![header("Authorization", "Bearer example-token")], &tokens));
    assert!(!is_authenticated(&vec![header("authorization", "bearer example-token")], &tokens));
    assert!(!is_authenticated(&vec![header("authorization", "Bearer example-token ")], &tokens));
    assert!(!is_authenticated(&vec![header("authorization", "Bearer ")], &tokens));
    // only the first Authorization header counts
    let two = vec![header("authorization", "Basic abc"), header("authorization", "Bearer example-token")];
    assert!(!is_authenticated(&two, &tokens));
    assert!(is_known_token(&tokens, "example-token"));
    assert!(!is_known_token(&tokens, "example-user"));
}
