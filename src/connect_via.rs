//! How the tools reach PostgreSQL and the controller, and how they retry.

use vstd::prelude::*;

verus! {

/// The shortest delay between two tries, in milliseconds.
pub const MIN_RETRY_DELAY_MS: u64 = 500;

/// How should we connect to the database and the controller?
#[derive(Clone, Copy, Debug, PartialEq, Eq, Structural)]
pub enum ConnectVia {
    /// Assume we're connecting via a `kubectl proxy`.
    Proxy,
    /// Assume we're connecting via internal cluster networking and DNS.
    Cluster,
}

/// How failed network operations are retried: with exponential backoff and
/// jitter from a minimum delay, without a bound on the number of tries, or
/// not at all.
#[derive(Clone, Copy, Debug, PartialEq, Eq, Structural)]
pub struct RetryPolicy {
    /// Are failures retried?
    pub retry: bool,
    /// The delay before the first retry, in milliseconds.
    pub min_delay_ms: u64,
    /// Is each delay randomised?
    pub jitter: bool,
}

impl ConnectVia {
    /// Should we retry failed connections? Inside the cluster, yes: its DNS
    /// is flaky and its jobs run for many worker-hours. Through a proxy, an
    /// interactive user would rather see the error at once.
    pub fn should_retry_by_default(self) -> (r: bool)
        ensures
            r == (self == ConnectVia::Cluster),
    {
        match self {
            ConnectVia::Proxy => false,
            ConnectVia::Cluster => true,
        }
    }

    /// The retry policy for operations made this way.
    pub fn retry_policy(self) -> (r: RetryPolicy)
        ensures
            r.retry == (self == ConnectVia::Cluster),
            r.min_delay_ms == MIN_RETRY_DELAY_MS,
            r.jitter,
    {
        RetryPolicy {
            retry: self.should_retry_by_default(),
            min_delay_ms: MIN_RETRY_DELAY_MS,
            jitter: true,
        }
    }
}

} // verus!
