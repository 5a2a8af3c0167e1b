use vstd::prelude::*;
use crate::table::Table;

verus! {

/// A response as the gateway handles it: status code, headers in order,
/// and the fully read body.
#[derive(Debug)]
pub struct Reply {
    pub status: u16,
    pub headers: Vec<(String, String)>,
    pub body: Vec<u8>,
}

/// A stored response and the second (since the epoch) from which it is stale.
#[derive(Debug)]
pub struct CacheEntry {
    pub response_parts: (u16, Vec<(String, String)>, Vec<u8>),
    pub expires_at: u64,
}

/// One client's fixed window: requests counted since `window_start`
/// (seconds since the epoch).
#[derive(Clone, Copy, Debug)]
pub struct RateLimit {
    pub count: u32,
    pub window_start: u64,
}

/// The state that every request shares: the response cache and the
/// rate-limit windows, each keyed by a string.
pub struct AppState {
    pub cache: Table<CacheEntry>,
    pub rate_limits: Table<RateLimit>,
}

impl AppState {
    pub open spec fn wf(&self) -> bool {
        self.cache.wf() && self.rate_limits.wf()
    }

    pub fn new() -> (r: AppState)
        ensures
            r.wf(),
            r.cache@ == Map::<Seq<char>, CacheEntry>::empty(),
            r.rate_limits@ == Map::<Seq<char>, RateLimit>::empty(),
    {
        AppState { cache: Table::new(), rate_limits: Table::new() }
    }
}

} // verus!
