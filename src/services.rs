use vstd::prelude::*;
use crate::config::GatewayConfig;
use crate::headers::{copy_bytes, copy_headers, first_value, header_value, header_view};
use crate::models::{AppState, CacheEntry, RateLimit, Reply};
use crate::text::{has_prefix, same_text, starts_with, tail_from};

verus! {

/// The key a client is rate-limited under: its first `X-Forwarded-For`
/// value, or `unknown` where it sent none.
pub open spec fn client_key_of(h: Seq<(Seq<char>, Seq<char>)>) -> Seq<char> {
    match first_value(h, "x-forwarded-for"@) {
        Some(v) => v,
        None => "unknown"@,
    }
}

/// A client's window after one more request at `now`: a first request
/// opens a window, a request a whole window length after the start opens a
/// new one, and any other request (one dated before the window's start too)
/// is counted in the current one. The count stops at the largest `u32`.
pub open spec fn next_window(prev: Option<RateLimit>, now: u64, window_secs: u64) -> RateLimit {
    match prev {
        None => RateLimit { count: 1, window_start: now },
        Some(w) => if now >= w.window_start && now - w.window_start >= window_secs {
            RateLimit { count: 1, window_start: now }
        } else {
            RateLimit {
                count: if w.count < u32::MAX { (w.count + 1) as u32 } else { w.count },
                window_start: w.window_start,
            }
        },
    }
}

/// The value stored under `k`, if any.
pub open spec fn stored<V>(m: Map<Seq<char>, V>, k: Seq<char>) -> Option<V> {
    if m.contains_key(k) {
        Some(m[k])
    } else {
        None
    }
}

/// The entry under `key` if it is still live at `now`.
pub open spec fn live_entry(m: Map<Seq<char>, CacheEntry>, key: Seq<char>, now: u64) -> Option<CacheEntry> {
    if m.contains_key(key) && now < m[key].expires_at {
        Some(m[key])
    } else {
        None
    }
}

/// The second from which an entry stored at `now` is stale (the largest
/// time there is, where the sum would pass it).
pub open spec fn expiry_time(now: u64, ttl: u64) -> u64 {
    if now + ttl <= u64::MAX {
        (now + ttl) as u64
    } else {
        u64::MAX
    }
}

/// The token of an `Authorization` value of the bearer scheme.
pub open spec fn bearer_token(v: Seq<char>) -> Option<Seq<char>> {
    if has_prefix(v, "Bearer "@) {
        Some(v.skip("Bearer "@.len() as int))
    } else {
        None
    }
}

/// Whether `t` is one of the known tokens.
pub open spec fn known_token(tokens: Seq<(String, String)>, t: Seq<char>) -> bool {
    exists|i: int| 0 <= i < tokens.len() && #[trigger] tokens[i].0@ == t
}

/// Whether the first `Authorization` header carries a known bearer token.
pub open spec fn authenticated(h: Seq<(Seq<char>, Seq<char>)>, tokens: Seq<(String, String)>) -> bool {
    match first_value(h, "authorization"@) {
        Some(v) => match bearer_token(v) {
            Some(t) => known_token(tokens, t),
            None => false,
        },
        None => false,
    }
}

/// The key the client of these headers is rate-limited under.
pub fn client_key(headers: &Vec<(String, String)>) -> (r: String)
    ensures
        r@ == client_key_of(header_view(headers@)),
{
    match header_value(headers, "x-forwarded-for") {
        Some(v) => v,
        None => "unknown".to_string(),
    }
}

/// Counts a request of the client of `headers` at `now` in its window,
/// and tells whether the request is within the limit.
pub fn check_rate_limit(
    state: &mut AppState,
    cfg: &GatewayConfig,
    headers: &Vec<(String, String)>,
    now: u64,
) -> (allowed: bool)
    requires
        old(state).wf(),
    ensures
        final(state).wf(),
        ({
            let key = client_key_of(header_view(headers@));
            let w = next_window(stored(old(state).rate_limits@, key), now, cfg.rate_limit_window_secs);
            &&& final(state).rate_limits@ == old(state).rate_limits@.insert(key, w)
            &&& allowed == (w.count <= cfg.rate_limit_requests)
        }),
        final(state).cache@ == old(state).cache@,
{
    let key = client_key(headers);
    let prev: Option<RateLimit> = match state.rate_limits.get(key.as_str()) {
        Some(w) => Some(*w),
        None => None,
    };
    let next = match prev {
        None => RateLimit { count: 1, window_start: now },
        Some(w) => {
            if now >= w.window_start && now - w.window_start >= cfg.rate_limit_window_secs {
                RateLimit { count: 1, window_start: now }
            } else {
                RateLimit { count: w.count.saturating_add(1), window_start: w.window_start }
            }
        },
    };
    state.rate_limits.insert(key, next);
    next.count <= cfg.rate_limit_requests
}

/// The response stored under `cache_key`, if it is still live at `now`.
pub fn get_cached_response(state: &AppState, cache_key: &str, now: u64) -> (r: Option<Reply>)
    requires
        state.wf(),
    ensures
        match live_entry(state.cache@, cache_key@, now) {
            Some(e) => r matches Some(reply) && reply.status == e.response_parts.0
                && header_view(reply.headers@) == header_view(e.response_parts.1@)
                && reply.body@ == e.response_parts.2@,
            None => r is None,
        },
{
    match state.cache.get(cache_key) {
        Some(entry) => {
            if now < entry.expires_at {
                Some(Reply {
                    status: entry.response_parts.0,
                    headers: copy_headers(&entry.response_parts.1),
                    body: copy_bytes(&entry.response_parts.2),
                })
            } else {
                None
            }
        },
        None => None,
    }
}

/// Stores a response under `cache_key`, live for `ttl_secs` from `now`,
/// in place of whatever was stored there.
pub fn cache_response(
    state: &mut AppState,
    cache_key: &str,
    response_parts: (u16, Vec<(String, String)>, Vec<u8>),
    now: u64,
    ttl_secs: u64,
)
    requires
        old(state).wf(),
    ensures
        final(state).wf(),
        final(state).cache@ == old(state).cache@.insert(
            cache_key@,
            (CacheEntry { response_parts, expires_at: expiry_time(now, ttl_secs) }),
        ),
        final(state).rate_limits@ == old(state).rate_limits@,
{
    let expires_at = now.saturating_add(ttl_secs);
    state.cache.insert(cache_key.to_string(), CacheEntry { response_parts, expires_at });
}

/// Whether `token` is one of the known tokens.
pub fn is_known_token(tokens: &Vec<(String, String)>, token: &str) -> (r: bool)
    ensures
        r == known_token(tokens@, token@),
{
    let mut i: usize = 0;
    while i < tokens.len()
        invariant
            i <= tokens@.len(),
            forall|j: int| 0 <= j < i ==> #[trigger] tokens@[j].0@ != token@,
        decreases tokens.len() - i,
    {
        if same_text(tokens[i].0.as_str(), token) {
            return true;
        }
        i = i + 1;
    }
    false
}

/// Whether the request's first `Authorization` header is `Bearer ` followed
/// by a known token.
pub fn is_authenticated(headers: &Vec<(String, String)>, tokens: &Vec<(String, String)>) -> (r: bool)
    ensures
        r == authenticated(header_view(headers@), tokens@),
{
    match header_value(headers, "authorization") {
        Some(v) => {
            let prefix = "Bearer ";
            if starts_with(v.as_str(), prefix) {
                let token = tail_from(v.as_str(), prefix.unicode_len());
                is_known_token(tokens, token.as_str())
            } else {
                false
            }
        },
        None => false,
    }
}

} // verus!

verus! {

/// A client's window after requests at the given times, in order, starting
/// with no window.
pub open spec fn window_after(times: Seq<u64>, window_secs: u64) -> Option<RateLimit>
    decreases times.len(),
{
    if times.len() == 0 {
        None
    } else {
        Some(next_window(window_after(times.drop_last(), window_secs), times.last(), window_secs))
    }
}

/// Requests that all fall in the window the first of them opened are
/// counted one by one: after the k-th the count is k, so the k-th is
/// allowed exactly when k is at most the limit; the limit-th is allowed
/// and the one after it is refused.
pub proof fn lemma_requests_in_one_window(times: Seq<u64>, window_secs: u64, limit: u32)
    requires
        0 < times.len() <= u32::MAX,
        forall|i: int| 0 <= i < times.len() ==> times[0] <= #[trigger] times[i] < times[0] + window_secs,
    ensures
        window_after(times, window_secs) == Some(RateLimit { count: times.len() as u32, window_start: times[0] }),
        (window_after(times, window_secs)->0.count <= limit) == (times.len() <= limit),
    decreases times.len(),
{
    if times.len() > 1 {
        let t = times.drop_last();
        assert forall|i: int| 0 <= i < t.len() implies t[0] <= #[trigger] t[i] < t[0] + window_secs by {
            assert(t[i] == times[i]);
        }
        lemma_requests_in_one_window(t, window_secs, limit);
        assert(t[0] == times[0]);
        let last = times[times.len() - 1];
        assert(times[0] <= last < times[0] + window_secs);
        assert(window_after(times, window_secs) == Some(next_window(window_after(t, window_secs), last, window_secs)));
    } else {
        assert(times.drop_last().len() == 0);
        assert(window_after(times.drop_last(), window_secs) is None);
        assert(window_after(times, window_secs) == Some(next_window(None, times[0], window_secs)));
    }
}

/// A request a whole window length or more after the window opened is
/// allowed (for any limit of at least one) and starts a new window with a
/// count of one.
pub proof fn lemma_window_rolls_over(w: RateLimit, now: u64, window_secs: u64, limit: u32)
    requires
        now >= w.window_start,
        now - w.window_start >= window_secs,
        limit >= 1,
    ensures
        next_window(Some(w), now, window_secs) == (RateLimit { count: 1, window_start: now }),
        next_window(Some(w), now, window_secs).count <= limit,
{
}

/// A response stored under a key is found again under that key, with the
/// same status, headers and body, by any lookup before its time to live
/// has passed.
pub proof fn lemma_cache_round_trip(
    m: Map<Seq<char>, CacheEntry>,
    key: Seq<char>,
    response_parts: (u16, Vec<(String, String)>, Vec<u8>),
    stored_at: u64,
    ttl_secs: u64,
    now: u64,
)
    requires
        now < stored_at + ttl_secs,
        stored_at + ttl_secs <= u64::MAX,
    ensures
        ({
            let e = CacheEntry { response_parts, expires_at: expiry_time(stored_at, ttl_secs) };
            live_entry(m.insert(key, e), key, now) == Some(e)
        }),
{
}

/// An entry is never found once its expiry time has come, whatever it holds.
pub proof fn lemma_cache_stale(m: Map<Seq<char>, CacheEntry>, key: Seq<char>, now: u64)
    requires
        m.contains_key(key),
        now >= m[key].expires_at,
    ensures
        live_entry(m, key, now) is None,
{
}

} // verus!
