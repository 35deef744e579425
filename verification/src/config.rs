//! Delivery configuration: the collector's address and credentials, with
//! the documented defaults.  The retry count and rate limit are present in
//! configuration but deliberately inert — no retry or rate limiting is
//! wired into the core.

use vstd::prelude::*;

verus! {

/// The delivery collaborator's configuration surface.
#[derive(Debug, Clone)]
pub struct ApiConfig {
    pub base_url: String,
    pub api_key: String,
    pub timeout_seconds: u64,
    pub retry_count: u32,
    pub rate_limit: u32,
}

impl Default for ApiConfig {
    /// The defaults used when no configuration file is present: a local
    /// collector, no key, a thirty-second request timeout, and the two
    /// inert fields at their documented values.
    fn default() -> (r: ApiConfig)
        ensures
            r.base_url@ == "http://localhost:8080"@,
            r.api_key@ == Seq::<char>::empty(),
            r.timeout_seconds == 30,
            r.retry_count == 3,
            r.rate_limit == 100,
    {
        ApiConfig {
            base_url: "http://localhost:8080".to_owned(),
            api_key: String::new(),
            timeout_seconds: 30,
            retry_count: 3,
            rate_limit: 100,
        }
    }
}

} // verus!
