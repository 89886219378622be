//! Broker runtime metrics: how long the broker has run and how many panics
//! the routing loop caught.

use vstd::prelude::*;

verus! {

/// The instants of std's monotonic clock.
#[verifier::external_type_specification]
#[verifier::external_body]
pub struct ExInstant(std::time::Instant);

/// std `Instant::now`: a reading of the monotonic clock. Nothing is stated
/// of it.
#[verifier::external_body]
fn instant_now() -> (r: std::time::Instant) {
    std::time::Instant::now()
}

/// std `Instant::elapsed` of `start`, in whole milliseconds
/// (`Duration::as_millis`). It depends on when it is called; stated only
/// that its whole seconds fit in `u64`, as a `Duration`'s seconds do.
#[verifier::external_body]
fn elapsed_millis(start: &std::time::Instant) -> (r: u128)
    ensures
        r / 1000 <= u64::MAX,
{
    start.elapsed().as_millis()
}

/// Runtime metrics for the broker.
pub struct BrokerMetrics {
    /// When the broker started, on the monotonic clock.
    pub start: std::time::Instant,
    /// Count of panics caught in the routing loop.
    pub panic_count: u64,
}

/// The whole seconds of a time span of `elapsed_ms` milliseconds.
pub open spec fn whole_secs(elapsed_ms: u128) -> u64 {
    (elapsed_ms / 1000) as u64
}

/// The uptime reported for `elapsed_ms` milliseconds since the start: its
/// whole seconds.
pub fn uptime_secs_of(elapsed_ms: u128) -> (s: u64)
    requires
        elapsed_ms / 1000 <= u64::MAX,
    ensures
        s == whole_secs(elapsed_ms),
        s == elapsed_ms / 1000,
{
    (elapsed_ms / 1000) as u64
}

impl BrokerMetrics {
    /// Metrics for a broker starting now, with no panic counted.
    pub fn new() -> (m: Self)
        ensures
            m.panic_count == 0,
    {
        BrokerMetrics { start: instant_now(), panic_count: 0 }
    }

    /// Broker uptime in whole seconds, by the monotonic clock: the whole
    /// seconds of the time elapsed since the start, as read when called.
    pub fn uptime_secs(&self) -> (s: u64)
        ensures
            exists|elapsed_ms: u128| elapsed_ms / 1000 <= u64::MAX && s == whole_secs(elapsed_ms),
    {
        let e = elapsed_millis(&self.start);
        let s = uptime_secs_of(e);
        assert(s == whole_secs(e));
        s
    }

    /// Count one more caught panic (saturating).
    pub fn record_panic(&mut self)
        ensures
            final(self).start == old(self).start,
            final(self).panic_count == (if old(self).panic_count < u64::MAX {
                (old(self).panic_count + 1) as u64
            } else {
                u64::MAX
            }),
    {
        if self.panic_count < u64::MAX {
            self.panic_count = self.panic_count + 1;
        }
    }

    /// Current panic count.
    pub fn get_panic_count(&self) -> (n: u64)
        ensures
            n == self.panic_count,
    {
        self.panic_count
    }
}

impl Default for BrokerMetrics {
    fn default() -> (m: Self)
        ensures
            m.panic_count == 0,
    {
        Self::new()
    }
}

} // verus!
