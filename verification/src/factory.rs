//! An agent factory wrapper that makes every agent it creates crash after a
//! fixed delay, to exercise the daemon's handling of agents that die on
//! their own rather than by idle timeout.

use vstd::prelude::*;

verus! {

/// Wraps another agent factory; the agents it creates crash `crash_after`
/// after they start.
pub struct CrashableAgentFactory<F> {
    inner: F,
    crash_after: std::time::Duration,
}

impl<F> CrashableAgentFactory<F> {
    /// The factory wrapping `inner`, with agents crashing after `crash_after`.
    pub fn new(inner: F, crash_after: std::time::Duration) -> (f: Self)
        ensures
            f.inner_spec() == inner,
            f.crash_after_spec() == crash_after,
    {
        Self { inner, crash_after }
    }

    /// The wrapped factory.
    pub closed spec fn inner_spec(&self) -> F {
        self.inner
    }

    /// The delay after which a created agent crashes.
    pub closed spec fn crash_after_spec(&self) -> std::time::Duration {
        self.crash_after
    }

    /// The wrapped factory, which creates the agents.
    pub fn inner(&self) -> (r: &F)
        ensures
            *r == self.inner_spec(),
    {
        &self.inner
    }

    /// The delay after which a created agent crashes.
    pub fn crash_after(&self) -> (d: std::time::Duration)
        ensures
            d == self.crash_after_spec(),
    {
        self.crash_after
    }
}

} // verus!
