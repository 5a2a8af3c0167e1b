use vstd::prelude::*;
use crate::config::GatewayConfig;
use crate::errors::GatewayError;
use crate::forward::{build_outbound, target_of, uri_accepts, OutboundRequest};
use crate::headers::{copy_bytes, copy_headers, header_view, without_header};
use crate::middleware::{add_cors_headers, with_cors};
use crate::models::{AppState, CacheEntry, Reply};
use crate::services::{
    authenticated, cache_response, check_rate_limit, client_key_of, expiry_time,
    get_cached_response, is_authenticated, live_entry, next_window, stored,
};
use crate::text::same_text;

verus! {

/// A request as it reached the gateway.
pub struct IncomingRequest {
    pub method: String,
    pub path: String,
    pub query: String,
    pub headers: Vec<(String, String)>,
    pub body: Vec<u8>,
}

/// What the gateway does next with a request: answer it now, send it on
/// to the backend, or refuse it.
pub enum Step {
    Respond(Reply),
    Forward(OutboundRequest),
    Reject(GatewayError),
}

/// The cache key of a request: method, a space, path, `?`, query. The
/// separators keep distinct requests apart (see `lemma_cache_key_distinct`).
pub open spec fn cache_key_of(method: Seq<char>, path: Seq<char>, query: Seq<char>) -> Seq<char> {
    method + " "@ + path + "?"@ + query
}

pub open spec fn is_get(req: IncomingRequest) -> bool {
    req.method@ == "GET"@
}

pub open spec fn is_health_check(req: IncomingRequest) -> bool {
    req.method@ == "GET"@ && req.path@ == "/health"@
}

/// The body of the health-check answer, `OK`.
pub open spec fn health_body() -> Seq<u8> {
    seq![79u8, 75u8]
}

/// Whether the step answers at once with this status, headers and body.
pub open spec fn answers(r: Step, status: u16, headers: Seq<(Seq<char>, Seq<char>)>, body: Seq<u8>) -> bool {
    match r {
        Step::Respond(rep) => rep.status == status && header_view(rep.headers@) == headers && rep.body@ == body,
        _ => false,
    }
}

/// Whether the result is a reply with this status, headers and body.
pub open spec fn replies(r: Result<Reply, GatewayError>, status: u16, headers: Seq<(Seq<char>, Seq<char>)>, body: Seq<u8>) -> bool {
    match r {
        Ok(rep) => rep.status == status && header_view(rep.headers@) == headers && rep.body@ == body,
        Err(_) => false,
    }
}

/// What comes of sending a request on that got past the limit and found
/// nothing in the cache: the outbound request, or a refusal where the
/// backend address does not parse.
pub open spec fn forwards(r: Step, cfg: GatewayConfig, req: IncomingRequest) -> bool {
    if uri_accepts(target_of(cfg.backend_base@, cfg.strip_path_prefix@, req.path@, req.query@)) {
        match r {
            Step::Forward(o) => o.method@ == req.method@
                && header_view(o.headers@) == without_header(header_view(req.headers@), "host"@)
                && o.body@ == req.body@,
            _ => false,
        }
    } else {
        r matches Step::Reject(GatewayError::InvalidUri(_))
    }
}

/// The cache key of a request.
pub fn cache_key(method: &str, path: &str, query: &str) -> (r: String)
    ensures
        r@ == cache_key_of(method@, path@, query@),
{
    let mut key = method.to_string();
    key.append(" ");
    key.append(path);
    key.append("?");
    key.append(query);
    key
}

/// The answer to `GET /health`: `200` with body `OK`.
pub fn health_reply() -> (r: Reply)
    ensures
        r.status == 200,
        r.headers@.len() == 0,
        r.body@ == health_body(),
{
    let mut body: Vec<u8> = Vec::new();
    body.push(79u8);
    body.push(75u8);
    assert(body@ =~= health_body());
    Reply { status: 200, headers: Vec::new(), body }
}

/// Takes a request as far as the gateway can before the backend: the
/// health check, authentication, the rate limit, and for `GET` the cache;
/// then builds the request for the backend. The state is not needed again
/// until `finish_request`, so it need not be held while the backend is
/// called; two identical `GET`s that both miss are then both forwarded, and
/// the later store wins.
pub fn begin_request(state: &mut AppState, cfg: &GatewayConfig, req: &IncomingRequest, now: u64) -> (r: Step)
    requires
        old(state).wf(),
    ensures
        final(state).wf(),
        final(state).cache@ == old(state).cache@,
        is_health_check(*req) ==> {
            &&& answers(r, 200, Seq::empty(), health_body())
            &&& final(state).rate_limits@ == old(state).rate_limits@
        },
        !is_health_check(*req) && !authenticated(header_view(req.headers@), cfg.auth_tokens@) ==> {
            &&& r == Step::Reject(GatewayError::Unauthorized)
            &&& final(state).rate_limits@ == old(state).rate_limits@
        },
        !is_health_check(*req) && authenticated(header_view(req.headers@), cfg.auth_tokens@) ==> ({
            let client = client_key_of(header_view(req.headers@));
            let w = next_window(stored(old(state).rate_limits@, client), now, cfg.rate_limit_window_secs);
            let hit = if is_get(*req) {
                live_entry(old(state).cache@, cache_key_of(req.method@, req.path@, req.query@), now)
            } else {
                None
            };
            &&& final(state).rate_limits@ == old(state).rate_limits@.insert(client, w)
            &&& w.count > cfg.rate_limit_requests ==> r == Step::Reject(GatewayError::RateLimitExceeded)
            &&& w.count <= cfg.rate_limit_requests ==> match hit {
                Some(e) => answers(r, e.response_parts.0, with_cors(header_view(e.response_parts.1@)), e.response_parts.2@),
                None => forwards(r, *cfg, *req),
            }
        }),
{
    if same_text(req.method.as_str(), "GET") && same_text(req.path.as_str(), "/health") {
        let rep = health_reply();
        assert(header_view(rep.headers@) =~= Seq::empty());
        return Step::Respond(rep);
    }
    if !is_authenticated(&req.headers, &cfg.auth_tokens) {
        return Step::Reject(GatewayError::Unauthorized);
    }
    if !check_rate_limit(state, cfg, &req.headers, now) {
        return Step::Reject(GatewayError::RateLimitExceeded);
    }
    if same_text(req.method.as_str(), "GET") {
        let key = cache_key(req.method.as_str(), req.path.as_str(), req.query.as_str());
        match get_cached_response(state, key.as_str(), now) {
            Some(reply) => {
                let mut reply = reply;
                add_cors_headers(&mut reply.headers);
                return Step::Respond(reply);
            },
            None => {},
        }
    }
    match build_outbound(cfg, req.method.as_str(), req.path.as_str(), req.query.as_str(), &req.headers, &req.body) {
        Ok(o) => Step::Forward(o),
        Err(e) => Step::Reject(e),
    }
}

/// Finishes a request that was sent to the backend: on success a `GET`
/// response is stored in the cache, and the answer gets the CORS headers;
/// a failure is passed on.
pub fn finish_request(
    state: &mut AppState,
    cfg: &GatewayConfig,
    req: &IncomingRequest,
    outcome: Result<Reply, GatewayError>,
    now: u64,
) -> (r: Result<Reply, GatewayError>)
    requires
        old(state).wf(),
    ensures
        final(state).wf(),
        final(state).rate_limits@ == old(state).rate_limits@,
        match outcome {
            Ok(b) => {
                &&& replies(r, b.status, with_cors(header_view(b.headers@)), b.body@)
                &&& is_get(*req) ==> final(state).cache@ == old(state).cache@.insert(
                    cache_key_of(req.method@, req.path@, req.query@),
                    (CacheEntry {
                        response_parts: (b.status, b.headers, b.body),
                        expires_at: expiry_time(now, cfg.cache_duration_secs),
                    }),
                )
                &&& !is_get(*req) ==> final(state).cache@ == old(state).cache@
            },
            Err(_) => r == outcome && final(state).cache@ == old(state).cache@,
        },
{
    match outcome {
        Ok(b) => {
            let mut headers = copy_headers(&b.headers);
            add_cors_headers(&mut headers);
            let reply = Reply { status: b.status, headers, body: copy_bytes(&b.body) };
            if same_text(req.method.as_str(), "GET") {
                let key = cache_key(req.method.as_str(), req.path.as_str(), req.query.as_str());
                cache_response(state, key.as_str(), (b.status, b.headers, b.body), now, cfg.cache_duration_secs);
            }
            Ok(reply)
        },
        Err(e) => Err(e),
    }
}

} // verus!

verus! {

proof fn lemma_split_at_first(a1: Seq<char>, b1: Seq<char>, a2: Seq<char>, b2: Seq<char>, c: char)
    requires
        !a1.contains(c),
        !a2.contains(c),
        a1 + seq![c] + b1 == a2 + seq![c] + b2,
    ensures
        a1 == a2,
        b1 == b2,
{
    let k = a1 + seq![c] + b1;
    if a1.len() < a2.len() {
        assert(k[a1.len() as int] == c);
        assert(k[a1.len() as int] == a2[a1.len() as int]);
        assert(a2.contains(c));
    } else if a2.len() < a1.len() {
        assert(k[a2.len() as int] == c);
        assert(k[a2.len() as int] == a1[a2.len() as int]);
        assert(a1.contains(c));
    }
    assert(a1 =~= k.take(a1.len() as int));
    assert(a2 =~= k.take(a1.len() as int));
    assert(b1 =~= k.skip(a1.len() as int + 1));
    assert(b2 =~= k.skip(a1.len() as int + 1));
}

/// Requests whose methods hold no space and whose paths hold no `?` share a
/// cache key only when method, path and query are all the same.
pub proof fn lemma_cache_key_distinct(
    m1: Seq<char>,
    p1: Seq<char>,
    q1: Seq<char>,
    m2: Seq<char>,
    p2: Seq<char>,
    q2: Seq<char>,
)
    requires
        !m1.contains(' '),
        !m2.contains(' '),
        !p1.contains('?'),
        !p2.contains('?'),
        cache_key_of(m1, p1, q1) == cache_key_of(m2, p2, q2),
    ensures
        m1 == m2,
        p1 == p2,
        q1 == q2,
{
    reveal_strlit(" ");
    reveal_strlit("?");
    assert(" "@ =~= seq![' ']);
    assert("?"@ =~= seq!['?']);
    assert(cache_key_of(m1, p1, q1) =~= m1 + seq![' '] + (p1 + seq!['?'] + q1));
    assert(cache_key_of(m2, p2, q2) =~= m2 + seq![' '] + (p2 + seq!['?'] + q2));
    lemma_split_at_first(m1, p1 + seq!['?'] + q1, m2, p2 + seq!['?'] + q2, ' ');
    lemma_split_at_first(p1, q1, p2, q2, '?');
}

} // verus!
