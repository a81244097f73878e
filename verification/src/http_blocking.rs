//! Settings of the blocking HTTP client: its builder, and the redirect limit
//! every client is made with.
use std::time::Duration;
use vstd::prelude::*;

verus! {

/// Redirects a client follows before giving up.
pub const REDIRECT_LIMIT: usize = 10;

/// Seconds the fallback shared client waits for a response.
pub const FALLBACK_TIMEOUT_SECS: u64 = 30;

/// Builder for creating a blocking client.
pub struct BlockingClientBuilder {
    pub timeout: Option<Duration>,
}

impl BlockingClientBuilder {
    /// A builder without a timeout.
    pub fn new() -> (b: Self)
        ensures
            b.timeout is None,
    {
        BlockingClientBuilder { timeout: None }
    }

    /// Set the request timeout.
    pub fn timeout(self, timeout: Duration) -> (b: Self)
        ensures
            b.timeout == Some(timeout),
    {
        let mut s = self;
        s.timeout = Some(timeout);
        s
    }
}

} // verus!
