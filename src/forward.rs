use vstd::prelude::*;
use crate::config::GatewayConfig;
use crate::errors::GatewayError;
use crate::headers::{copy_bytes, copy_headers, header_view, remove_header, without_header};
use crate::text::{has_prefix, starts_with, tail_from};

verus! {

#[verifier::external_type_specification]
#[verifier::external_body]
pub struct ExUri(http::Uri);

#[verifier::external_type_specification]
#[verifier::external_body]
pub struct ExInvalidUri(http::uri::InvalidUri);

/// Whether the `http` crate accepts the text as a URI.
pub uninterp spec fn uri_accepts(s: Seq<char>) -> bool;

/// Relies on `FromStr` for `http::Uri`: parses the text as a URI; whether
/// the text is accepted depends on the text alone.
#[verifier::external_body]
fn parse_uri(s: &str) -> (r: Result<http::Uri, http::uri::InvalidUri>)
    ensures
        r is Ok == uri_accepts(s@),
{
    s.parse::<http::Uri>()
}

/// Relies on `Display` for `http::uri::InvalidUri`: the parser's own
/// description of what it refused.
#[verifier::external_body]
fn invalid_uri_text(e: &http::uri::InvalidUri) -> String {
    e.to_string()
}

/// The path with `prefix` taken off its front, where it begins with it.
pub open spec fn stripped_path(path: Seq<char>, prefix: Seq<char>) -> Seq<char> {
    if has_prefix(path, prefix) {
        path.skip(prefix.len() as int)
    } else {
        path
    }
}

/// The backend address a request for `path` and `query` goes to.
pub open spec fn target_of(base: Seq<char>, prefix: Seq<char>, path: Seq<char>, query: Seq<char>) -> Seq<char> {
    base + stripped_path(path, prefix) + if query.len() > 0 {
        "?"@ + query
    } else {
        Seq::<char>::empty()
    }
}

/// A request on its way to the backend.
pub struct OutboundRequest {
    pub method: String,
    pub uri: http::Uri,
    pub headers: Vec<(String, String)>,
    pub body: Vec<u8>,
}

/// Takes `prefix` off the front of `path` where the path begins with it.
pub fn strip_path_prefix(path: &str, prefix: &str) -> (r: String)
    ensures
        r@ == stripped_path(path@, prefix@),
{
    if starts_with(path, prefix) {
        tail_from(path, prefix.unicode_len())
    } else {
        path.to_string()
    }
}

/// The backend address for a request: the base, the path without the
/// configured prefix, and `?` with the query where there is one.
pub fn backend_target(cfg: &GatewayConfig, path: &str, query: &str) -> (r: String)
    ensures
        r@ == target_of(cfg.backend_base@, cfg.strip_path_prefix@, path@, query@),
{
    let mut target = cfg.backend_base.clone();
    let rest = strip_path_prefix(path, cfg.strip_path_prefix.as_str());
    target.append(rest.as_str());
    if query.unicode_len() > 0 {
        target.append("?");
        target.append(query);
    }
    assert(target@ =~= target_of(cfg.backend_base@, cfg.strip_path_prefix@, path@, query@));
    target
}

/// The headers sent on to the backend: all but `Host`.
pub fn outbound_headers(headers: &Vec<(String, String)>) -> (r: Vec<(String, String)>)
    ensures
        header_view(r@) == without_header(header_view(headers@), "host"@),
{
    let mut out = copy_headers(headers);
    remove_header(&mut out, "host");
    out
}

/// Puts together the request to the backend from the outcome of parsing
/// its address: same method and body, the headers but `Host`, the parsed
/// URI; a refused address is an `InvalidUri` error.
pub fn outbound_request(
    parsed: Result<http::Uri, http::uri::InvalidUri>,
    method: &str,
    headers: &Vec<(String, String)>,
    body: &Vec<u8>,
) -> (r: Result<OutboundRequest, GatewayError>)
    ensures
        r is Ok == parsed is Ok,
        match r {
            Ok(o) => {
                &&& o.uri == parsed->Ok_0
                &&& o.method@ == method@
                &&& header_view(o.headers@) == without_header(header_view(headers@), "host"@)
                &&& o.body@ == body@
            },
            Err(e) => e is InvalidUri,
        },
{
    match parsed {
        Ok(uri) => Ok(OutboundRequest {
            method: method.to_string(),
            uri,
            headers: outbound_headers(headers),
            body: copy_bytes(body),
        }),
        Err(e) => Err(GatewayError::InvalidUri(invalid_uri_text(&e))),
    }
}

/// Builds the request to the backend: same method and body, the headers
/// but `Host`, and the rewritten address, which must parse as a URI.
pub fn build_outbound(
    cfg: &GatewayConfig,
    method: &str,
    path: &str,
    query: &str,
    headers: &Vec<(String, String)>,
    body: &Vec<u8>,
) -> (r: Result<OutboundRequest, GatewayError>)
    ensures
        r is Ok == uri_accepts(target_of(cfg.backend_base@, cfg.strip_path_prefix@, path@, query@)),
        match r {
            Ok(o) => {
                &&& o.method@ == method@
                &&& header_view(o.headers@) == without_header(header_view(headers@), "host"@)
                &&& o.body@ == body@
            },
            Err(e) => e is InvalidUri,
        },
{
    let target = backend_target(cfg, path, query);
    outbound_request(parse_uri(target.as_str()), method, headers, body)
}

} // verus!
