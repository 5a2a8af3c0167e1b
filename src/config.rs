use vstd::prelude::*;

verus! {

pub const BACKEND_BASE: &'static str = "http://localhost:8081";
/// Requests allowed to one client in one window.
pub const RATE_LIMIT_REQUESTS: u32 = 100;
/// Length of a rate-limit window, in seconds.
pub const RATE_LIMIT_WINDOW_SECS: u64 = 60;
pub const REQUEST_TIMEOUT_SECS: u64 = 30;
/// How long a cached response stays live, in seconds.
pub const CACHE_DURATION_SECS: u64 = 300;
/// Taken off the front of an incoming path before it is forwarded.
pub const STRIP_PATH_PREFIX: &'static str = "/api";

/// The settings of one gateway process, fixed at start-up and handed to
/// every step of the request pipeline.
pub struct GatewayConfig {
    pub backend_base: String,
    pub rate_limit_requests: u32,
    pub rate_limit_window_secs: u64,
    pub request_timeout_secs: u64,
    pub cache_duration_secs: u64,
    pub strip_path_prefix: String,
    /// Bearer tokens, each with the identity it stands for.
    pub auth_tokens: Vec<(String, String)>,
}

impl GatewayConfig {
    /// The settings the gateway runs with: the constants above and one
    /// known token, `example-token`, for `example-user`.
    pub fn standard() -> (r: GatewayConfig)
        ensures
            r.backend_base@ == BACKEND_BASE@,
            r.rate_limit_requests == RATE_LIMIT_REQUESTS,
            r.rate_limit_window_secs == RATE_LIMIT_WINDOW_SECS,
            r.request_timeout_secs == REQUEST_TIMEOUT_SECS,
            r.cache_duration_secs == CACHE_DURATION_SECS,
            r.strip_path_prefix@ == STRIP_PATH_PREFIX@,
            r.auth_tokens@.len() == 1,
            r.auth_tokens@[0].0@ == "example-token"@,
            r.auth_tokens@[0].1@ == "example-user"@,
    {
        let mut auth_tokens: Vec<(String, String)> = Vec::new();
        auth_tokens.push(("example-token".to_string(), "example-user".to_string()));
        GatewayConfig {
            backend_base: BACKEND_BASE.to_string(),
            rate_limit_requests: RATE_LIMIT_REQUESTS,
            rate_limit_window_secs: RATE_LIMIT_WINDOW_SECS,
            request_timeout_secs: REQUEST_TIMEOUT_SECS,
            cache_duration_secs: CACHE_DURATION_SECS,
            strip_path_prefix: STRIP_PATH_PREFIX.to_string(),
            auth_tokens,
        }
    }
}

} // verus!
