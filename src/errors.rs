use vstd::prelude::*;

verus! {

/// The ways in which a request through the gateway can fail.
#[derive(Clone, Debug)]
pub enum GatewayError {
    InvalidUri(String),
    Http(String),
    RateLimitExceeded,
    Timeout,
    Unauthorized,
}

/// Why a request got no regular response: no route matched it, the gateway
/// refused or failed it, or something else went wrong.
#[derive(Debug)]
pub enum Rejection {
    NotFound,
    Gateway(GatewayError),
    Other,
}

/// The words that describe an error.
pub open spec fn error_text(e: GatewayError) -> Seq<char> {
    match e {
        GatewayError::InvalidUri(d) => "Invalid URI: "@ + d@,
        GatewayError::Http(d) => "HTTP Error: "@ + d@,
        GatewayError::RateLimitExceeded => "Rate limit exceeded"@,
        GatewayError::Timeout => "Request timed out"@,
        GatewayError::Unauthorized => "Unauthorized"@,
    }
}

/// The status code a rejection is answered with.
pub open spec fn rejection_status(r: Rejection) -> u16 {
    match r {
        Rejection::NotFound => 404,
        Rejection::Gateway(GatewayError::RateLimitExceeded) => 429,
        Rejection::Gateway(GatewayError::Timeout) => 504,
        Rejection::Gateway(GatewayError::Unauthorized) => 401,
        _ => 500,
    }
}

/// The body a rejection is answered with.
pub open spec fn rejection_message(r: Rejection) -> Seq<char> {
    match r {
        Rejection::NotFound => "Not Found"@,
        Rejection::Gateway(GatewayError::RateLimitExceeded) => "Rate limit exceeded"@,
        Rejection::Gateway(GatewayError::Timeout) => "Gateway timeout"@,
        Rejection::Gateway(GatewayError::Unauthorized) => "Unauthorized"@,
        _ => "Internal server error"@,
    }
}

impl GatewayError {
    /// The error described in words, with its detail where it has one.
    pub fn describe(&self) -> (r: String)
        ensures
            r@ == error_text(*self),
    {
        match self {
            GatewayError::InvalidUri(d) => {
                let mut s = "Invalid URI: ".to_string();
                s.append(d.as_str());
                s
            },
            GatewayError::Http(d) => {
                let mut s = "HTTP Error: ".to_string();
                s.append(d.as_str());
                s
            },
            GatewayError::RateLimitExceeded => "Rate limit exceeded".to_string(),
            GatewayError::Timeout => "Request timed out".to_string(),
            GatewayError::Unauthorized => "Unauthorized".to_string(),
        }
    }

    /// The status code this error is answered with.
    pub fn status_code(&self) -> (r: u16)
        ensures
            r == rejection_status(Rejection::Gateway(*self)),
    {
        match self {
            GatewayError::RateLimitExceeded => 429,
            GatewayError::Timeout => 504,
            GatewayError::Unauthorized => 401,
            _ => 500,
        }
    }
}

/// Turns a rejection into the status code and the message body it is
/// answered with.
pub fn handle_rejection(err: &Rejection) -> (r: (u16, String))
    ensures
        r.0 == rejection_status(*err),
        r.1@ == rejection_message(*err),
{
    match err {
        Rejection::NotFound => (404, "Not Found".to_string()),
        Rejection::Gateway(e) => {
            let code = e.status_code();
            match e {
                GatewayError::RateLimitExceeded => (code, "Rate limit exceeded".to_string()),
                GatewayError::Timeout => (code, "Gateway timeout".to_string()),
                GatewayError::Unauthorized => (code, "Unauthorized".to_string()),
                _ => (code, "Internal server error".to_string()),
            }
        },
        Rejection::Other => (500, "Internal server error".to_string()),
    }
}

} // verus!
