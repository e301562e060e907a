use vstd::prelude::*;

verus! {

/// Most reconnect attempts in one backoff cycle.
pub const MAX_RECONNECT_ATTEMPTS: u32 = 5;

/// Delay before the first reconnect attempt, in seconds.
pub const BASE_DELAY_SECS: u64 = 2;

/// Consecutive failing health cycles after which the monitor stops.
pub const MAX_MONITOR_FAILURES: u32 = 3;

/// Seconds between two health cycles.
pub const MONITOR_PERIOD_SECS: u64 = 30;

pub open spec fn pow2(n: nat) -> nat
    decreases n,
{
    if n == 0 {
        1
    } else {
        2 * pow2((n - 1) as nat)
    }
}

/// The delay before reconnect attempt `attempt` (counted from 1): 2, 4, 8, 16, 32 s.
pub fn backoff_delay_secs(attempt: u32) -> (r: u64)
    requires
        1 <= attempt <= MAX_RECONNECT_ATTEMPTS,
    ensures
        r == BASE_DELAY_SECS * pow2((attempt - 1) as nat),
{
    let mut d: u64 = BASE_DELAY_SECS;
    let mut k: u32 = 1;
    while k < attempt
        invariant
            1 <= k <= attempt,
            attempt <= MAX_RECONNECT_ATTEMPTS,
            d == BASE_DELAY_SECS * pow2((k - 1) as nat),
        decreases attempt - k,
    {
        proof {
            assert(pow2(k as nat) == 2 * pow2((k - 1) as nat));
            assert(pow2((k - 1) as nat) <= 16) by {
                assert(pow2(0) == 1);
                assert(pow2(1) == 2);
                assert(pow2(2) == 4);
                assert(pow2(3) == 8);
                assert(pow2(4) == 16);
            }
        }
        d = d * 2;
        k += 1;
    }
    d
}

/// A pool is healthy when it has relays and at least half of them are connected
/// (integer percentage, rounded down).
pub open spec fn healthy_spec(connected: nat, total: nat) -> bool {
    total > 0 && (connected * 100) / total >= 50
}

pub fn is_healthy(connected: usize, total: usize) -> (r: bool)
    ensures
        r == healthy_spec(connected as nat, total as nat),
{
    if total == 0 {
        return false;
    }
    let c = connected as u128;
    let t = total as u128;
    assert(c * 100 <= u128::MAX) by (nonlinear_arith)
        requires
            c <= usize::MAX,
    ;
    (c * 100) / t >= 50
}

/// What the background health monitor does after a cycle.
#[derive(Clone, Copy, Debug, PartialEq, Eq, Structural)]
pub enum MonitorAction {
    /// All relays are fine: wait for the next cycle.
    Continue,
    /// Re-add the failing relays and reconnect the pool, then keep monitoring.
    Reconnect,
    /// Reconnect once more, then stop monitoring for good.
    ReconnectAndStop,
    /// Nothing to monitor: stop.
    Stop,
}

/// The health monitor's count of consecutive failing cycles.
pub struct HealthMonitor {
    pub failures: u32,
}

impl HealthMonitor {
    pub fn new() -> (r: HealthMonitor)
        ensures
            r.failures == 0,
    {
        HealthMonitor { failures: 0 }
    }

    /// Takes one cycle's result: `total` relays in the pool, `failed` of them unhealthy.
    pub fn on_cycle(&mut self, total: usize, failed: usize) -> (r: MonitorAction)
        requires
            old(self).failures < MAX_MONITOR_FAILURES,
        ensures
            total == 0 ==> r == MonitorAction::Stop && final(self).failures == old(self).failures,
            total > 0 && failed > 0 ==> final(self).failures == old(self).failures + 1,
            total > 0 && failed > 0 && old(self).failures + 1 >= MAX_MONITOR_FAILURES ==> r
                == MonitorAction::ReconnectAndStop,
            total > 0 && failed > 0 && old(self).failures + 1 < MAX_MONITOR_FAILURES ==> r
                == MonitorAction::Reconnect,
            total > 0 && failed == 0 ==> final(self).failures == 0 && r == MonitorAction::Continue,
            r != MonitorAction::Stop && r != MonitorAction::ReconnectAndStop ==> final(self).failures
                < MAX_MONITOR_FAILURES,
    {
        if total == 0 {
            return MonitorAction::Stop;
        }
        if failed > 0 {
            self.failures = self.failures + 1;
            if self.failures >= MAX_MONITOR_FAILURES {
                MonitorAction::ReconnectAndStop
            } else {
                MonitorAction::Reconnect
            }
        } else {
            self.failures = 0;
            MonitorAction::Continue
        }
    }
}

/// What a reconnect-with-backoff cycle does after an attempt.
#[derive(Clone, Copy, Debug, PartialEq, Eq, Structural)]
pub enum BackoffAction {
    /// The pool is healthy again.
    Recovered,
    /// Wait this many seconds, reconnect and check again.
    RetryAfter(u64),
    /// Every attempt failed.
    GiveUp,
}

/// The decision after attempt `attempt` (counted from 1) found the pool `healthy` or not.
pub fn after_attempt(attempt: u32, healthy: bool) -> (r: BackoffAction)
    requires
        1 <= attempt <= MAX_RECONNECT_ATTEMPTS,
    ensures
        healthy ==> r == BackoffAction::Recovered,
        !healthy && attempt < MAX_RECONNECT_ATTEMPTS ==> r == BackoffAction::RetryAfter(
            (BASE_DELAY_SECS * pow2(attempt as nat)) as u64,
        ),
        !healthy && attempt == MAX_RECONNECT_ATTEMPTS ==> r == BackoffAction::GiveUp,
{
    if healthy {
        BackoffAction::Recovered
    } else if attempt < MAX_RECONNECT_ATTEMPTS {
        BackoffAction::RetryAfter(backoff_delay_secs(attempt + 1))
    } else {
        BackoffAction::GiveUp
    }
}

/// The delay before the first attempt of a backoff cycle.
pub fn first_delay() -> (r: u64)
    ensures
        r == BASE_DELAY_SECS,
{
    backoff_delay_secs(1)
}

} // verus!
