//! Health sampler configuration and the software-watchdog decision it takes every interval.
use vstd::prelude::*;
use crate::health::registry::HealthThresholds;

verus! {

/// The `Duration` of a whole number of seconds, as std `Duration::from_secs` builds it.
pub uninterp spec fn duration_of_secs(secs: u64) -> std::time::Duration;

/// A whole number of seconds as a std `Duration`. Calls std `Duration::from_secs`, which
/// is deterministic and never panics; the result is named by `duration_of_secs`.
#[verifier::external_body]
fn duration_from_secs(secs: u64) -> (d: std::time::Duration)
    ensures
        d == duration_of_secs(secs),
{
    std::time::Duration::from_secs(secs)
}

#[derive(Debug, Clone, Copy)]
pub struct HealthMonitorConfig {
    pub snapshot_interval: std::time::Duration,
    pub thresholds: HealthThresholds,
    /// Software watchdog: restart the service if the core loop stalls. Default off.
    pub restart_on_core_stall: bool,
    /// How long the core must stay stalled before a restart is requested.
    pub restart_after_critical: std::time::Duration,
    /// Minimum spacing between restart requests (anti-reboot-loop).
    pub restart_cooldown: std::time::Duration,
}

impl Default for HealthMonitorConfig {
    fn default() -> (c: Self)
        ensures
            c.snapshot_interval == duration_of_secs(5),
            c.restart_after_critical == duration_of_secs(30),
            c.restart_cooldown == duration_of_secs(600),
            !c.restart_on_core_stall,
            c.thresholds.core_stall_critical_ms == 10_000,
            c.thresholds.radios_silent_degraded_secs == 900,
            c.thresholds.periodic_registration_secs == 3600,
            c.thresholds.dl_queue_degraded == 64,
            c.thresholds.dl_queue_critical == 192,
            c.thresholds.sds_queue_degraded == 32,
            c.thresholds.sds_queue_critical == 128,
    {
        HealthMonitorConfig {
            snapshot_interval: duration_from_secs(5),
            thresholds: HealthThresholds::default(),
            restart_on_core_stall: false,
            restart_after_critical: duration_from_secs(30),
            restart_cooldown: duration_from_secs(600),
        }
    }
}

/// The stall threshold the watchdog uses: the configured one, but never below one second.
pub open spec fn spec_watchdog_stall_ms(configured_ms: u64) -> u64 {
    if configured_ms >= 1000 { configured_ms } else { 1000 }
}

pub fn watchdog_stall_ms(configured_ms: u64) -> (r: u64)
    ensures
        r == spec_watchdog_stall_ms(configured_ms),
{
    if configured_ms >= 1000 { configured_ms } else { 1000 }
}

/// What the watchdog decided on one sample.
#[derive(Debug, Clone, Copy, PartialEq, Eq, Structural)]
pub enum WatchdogDecision {
    /// The core loop is ticking; any stall episode is over.
    Ticking,
    /// Stalled, but not for long enough yet.
    StalledWaiting,
    /// Stalled long enough, but a previous restart request is still cooling down.
    CoolingDown,
    /// Request a service restart now.
    Restart,
}

/// Watchdog memory across samples, in milliseconds of a monotonic clock.
#[derive(Debug, Clone, Copy, PartialEq, Eq, Structural)]
pub struct WatchdogState {
    /// Start of the current stall episode, if the core is stalled.
    pub stall_since_ms: Option<u64>,
    /// When the last restart was requested.
    pub last_restart_ms: Option<u64>,
}

/// `now - then`, saturating at zero.
pub open spec fn elapsed(then: u64, now: u64) -> int {
    if now >= then { now - then } else { 0 }
}

impl WatchdogState {
    pub fn new() -> (s: Self)
        ensures
            s.stall_since_ms.is_none(),
            s.last_restart_ms.is_none(),
    {
        WatchdogState { stall_since_ms: None, last_restart_ms: None }
    }

    /// One watchdog sample at `now_ms`, with the core loop's last tick `age_ms` old.
    /// Only the core-loop liveness drives a restart.
    pub fn step(
        &mut self,
        now_ms: u64,
        age_ms: u64,
        stall_critical_ms: u64,
        restart_after_ms: u64,
        cooldown_ms: u64,
    ) -> (d: WatchdogDecision)
        ensures
            age_ms < stall_critical_ms ==> d == WatchdogDecision::Ticking && final(self).stall_since_ms
                is None && final(self).last_restart_ms == old(self).last_restart_ms,
            age_ms >= stall_critical_ms ==> final(self).stall_since_ms == Some(
                match old(self).stall_since_ms {
                    Some(t) => t,
                    None => now_ms,
                },
            ),
            age_ms >= stall_critical_ms ==> ({
                let since = final(self).stall_since_ms.unwrap();
                if elapsed(since, now_ms) < restart_after_ms {
                    d == WatchdogDecision::StalledWaiting
                } else if old(self).last_restart_ms matches Some(t) && elapsed(t, now_ms)
                    < cooldown_ms {
                    d == WatchdogDecision::CoolingDown
                } else {
                    d == WatchdogDecision::Restart
                }
            }),
            d == WatchdogDecision::Restart ==> final(self).last_restart_ms == Some(now_ms),
            d != WatchdogDecision::Restart ==> final(self).last_restart_ms
                == old(self).last_restart_ms,
    {
        if age_ms < stall_critical_ms {
            self.stall_since_ms = None;
            return WatchdogDecision::Ticking;
        }
        let since = match self.stall_since_ms {
            Some(t) => t,
            None => now_ms,
        };
        self.stall_since_ms = Some(since);
        if now_ms.saturating_sub(since) < restart_after_ms {
            return WatchdogDecision::StalledWaiting;
        }
        if let Some(t) = self.last_restart_ms {
            if now_ms.saturating_sub(t) < cooldown_ms {
                return WatchdogDecision::CoolingDown;
            }
        }
        self.last_restart_ms = Some(now_ms);
        WatchdogDecision::Restart
    }
}

/// Law: a restart is requested only while the core is stalled, only after the stall has
/// lasted `restart_after_ms`, and never within `cooldown_ms` of the previous request.
pub proof fn lemma_restart_is_debounced_and_rate_limited(
    pre: WatchdogState,
    post: WatchdogState,
    d: WatchdogDecision,
    now_ms: u64,
    age_ms: u64,
    stall_critical_ms: u64,
    restart_after_ms: u64,
    cooldown_ms: u64,
)
    requires
        age_ms < stall_critical_ms ==> d == WatchdogDecision::Ticking && post.stall_since_ms is None
            && post.last_restart_ms == pre.last_restart_ms,
        age_ms >= stall_critical_ms ==> post.stall_since_ms == Some(
            match pre.stall_since_ms {
                Some(t) => t,
                None => now_ms,
            },
        ),
        age_ms >= stall_critical_ms ==> ({
            let since = post.stall_since_ms.unwrap();
            if elapsed(since, now_ms) < restart_after_ms {
                d == WatchdogDecision::StalledWaiting
            } else if pre.last_restart_ms matches Some(t) && elapsed(t, now_ms) < cooldown_ms {
                d == WatchdogDecision::CoolingDown
            } else {
                d == WatchdogDecision::Restart
            }
        }),
    ensures
        d == WatchdogDecision::Restart ==> age_ms >= stall_critical_ms,
        d == WatchdogDecision::Restart ==> elapsed(post.stall_since_ms.unwrap(), now_ms)
            >= restart_after_ms,
        d == WatchdogDecision::Restart && pre.last_restart_ms is Some ==> elapsed(
            pre.last_restart_ms.unwrap(),
            now_ms,
        ) >= cooldown_ms,
{
}

} // verus!
