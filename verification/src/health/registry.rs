//! Health registry: hot paths poke cheap counters here; the sampler rolls them into a
//! [`HealthSnapshot`]. The registry never calls back into RF/CMCE/UMAC.
use vstd::prelude::*;
use crate::clock::{instant_now, millis_since, secs_since};
use crate::health::types::{DomainHealth, HealthDomain, HealthLevel, HealthSnapshot, level_rank, spec_worst};
use crate::text::{decimal, push_decimal};

verus! {

/// Tunables for turning raw counters into levels.
#[derive(Debug, Clone, Copy)]
pub struct HealthThresholds {
    /// Service is Critical if no core tick for this long (Degraded at half this).
    pub core_stall_critical_ms: u64,
    /// Floor for the "attached but silent" Degraded signal; 0 disables the signal.
    pub radios_silent_degraded_secs: u64,
    /// Configured periodic-registration interval (T351) in seconds; 0 = none.
    pub periodic_registration_secs: u64,
    /// Downlink queue depth at/above which Congestion is Degraded / Critical.
    pub dl_queue_degraded: usize,
    pub dl_queue_critical: usize,
    /// Live SDS queue depth at/above which Congestion is Degraded / Critical.
    pub sds_queue_degraded: usize,
    pub sds_queue_critical: usize,
}

impl Default for HealthThresholds {
    fn default() -> (t: Self)
        ensures
            t.core_stall_critical_ms == 10_000,
            t.radios_silent_degraded_secs == 900,
            t.periodic_registration_secs == 3600,
            t.dl_queue_degraded == 64,
            t.dl_queue_critical == 192,
            t.sds_queue_degraded == 32,
            t.sds_queue_critical == 128,
    {
        HealthThresholds {
            core_stall_critical_ms: 10_000,
            radios_silent_degraded_secs: 900,
            periodic_registration_secs: 3600,
            dl_queue_degraded: 64,
            dl_queue_critical: 192,
            sds_queue_degraded: 32,
            sds_queue_critical: 128,
        }
    }
}

/// The effective "attached but silent" threshold: the floor, raised to 1.5 x T351 when
/// periodic registration is configured.
pub open spec fn spec_effective_radios_silent_secs(floor_secs: u64, t351: u64) -> int {
    if t351 > 0 {
        let scaled = t351 + t351 / 2;
        if floor_secs >= scaled { floor_secs as int } else { scaled }
    } else {
        floor_secs as int
    }
}

/// Effective "attached but silent" threshold in seconds. A radio re-registers every T351
/// and is legitimately quiet in between, so the floor is raised to at least 1.5 x T351;
/// T351 == 0 keeps the plain floor.
pub fn effective_radios_silent_secs(floor_secs: u64, periodic_registration_secs: u64) -> (r: u64)
    requires
        periodic_registration_secs + periodic_registration_secs / 2 <= u64::MAX,
    ensures
        r == spec_effective_radios_silent_secs(floor_secs, periodic_registration_secs),
        r >= floor_secs,
        periodic_registration_secs > 0 ==> r >= periodic_registration_secs,
{
    if periodic_registration_secs > 0 {
        let scaled = periodic_registration_secs + periodic_registration_secs / 2;
        if floor_secs >= scaled { floor_secs } else { scaled }
    } else {
        floor_secs
    }
}

/// Startup grace: Service is not flagged while the stack boots.
pub const SERVICE_STARTUP_GRACE_MS: u64 = 5_000;

/// The abstract counters of a registry.
pub struct RegistryView {
    pub last_tick_ms: u64,
    pub brew_configured: bool,
    pub brew_up: bool,
    pub registered_radios: usize,
    pub last_radio_activity_ms: u64,
    pub dl_queue_depth: usize,
    pub sds_queue_depth: usize,
    pub last_action: Option<String>,
}

pub struct HealthRegistry {
    start: std::time::Instant,
    /// Millis-since-start at the last core tick; 0 = no tick observed yet.
    last_tick_ms: u64,
    brew_configured: bool,
    brew_up: bool,
    registered_radios: usize,
    /// Millis-since-start of the last uplink heard from any radio; 0 = none yet.
    last_radio_activity_ms: u64,
    dl_queue_depth: usize,
    sds_queue_depth: usize,
    /// Most recent remediation action, human-readable.
    last_action: Option<String>,
}

impl View for HealthRegistry {
    type V = RegistryView;

    closed spec fn view(&self) -> RegistryView {
        RegistryView {
            last_tick_ms: self.last_tick_ms,
            brew_configured: self.brew_configured,
            brew_up: self.brew_up,
            registered_radios: self.registered_radios,
            last_radio_activity_ms: self.last_radio_activity_ms,
            dl_queue_depth: self.dl_queue_depth,
            sds_queue_depth: self.sds_queue_depth,
            last_action: self.last_action,
        }
    }
}

/// The stamp stored for a clock reading: the reading itself, or 1 for a reading of 0
/// (a stamp of 0 means "never").
pub open spec fn spec_stamp_ms(now_ms: u64) -> u64 {
    if now_ms >= 1 { now_ms } else { 1 }
}

/// Milliseconds since an event stamped at `stamp_ms` (0 = never: the whole age `now_ms`).
pub open spec fn spec_age_ms(stamp_ms: u64, now_ms: u64) -> int {
    if stamp_ms == 0 {
        now_ms as int
    } else if now_ms >= stamp_ms {
        now_ms - stamp_ms
    } else {
        0
    }
}

/// Level of the Service domain.
pub open spec fn service_level(r: RegistryView, now_ms: u64, t: HealthThresholds) -> HealthLevel {
    let age = spec_age_ms(r.last_tick_ms, now_ms);
    if r.last_tick_ms == 0 && now_ms < SERVICE_STARTUP_GRACE_MS {
        HealthLevel::Okay
    } else if age >= t.core_stall_critical_ms {
        HealthLevel::Critical
    } else if age >= t.core_stall_critical_ms / 2 {
        HealthLevel::Degraded
    } else {
        HealthLevel::Okay
    }
}

/// Detail line of the Service domain.
pub open spec fn service_detail(r: RegistryView, now_ms: u64, t: HealthThresholds) -> Seq<char> {
    let age = spec_age_ms(r.last_tick_ms, now_ms);
    if r.last_tick_ms == 0 && now_ms < SERVICE_STARTUP_GRACE_MS {
        "starting"@
    } else if age >= t.core_stall_critical_ms {
        "core loop stalled "@ + decimal((age / 1000) as nat) + "s"@
    } else if age >= t.core_stall_critical_ms / 2 {
        "core loop slow ("@ + decimal(age as nat) + "ms since last tick)"@
    } else {
        "ticking"@
    }
}

/// Level of the Backhaul domain: a configured but down Brew link is Degraded.
pub open spec fn backhaul_level(r: RegistryView) -> HealthLevel {
    if r.brew_configured && !r.brew_up { HealthLevel::Degraded } else { HealthLevel::Okay }
}

pub open spec fn backhaul_detail(r: RegistryView) -> Seq<char> {
    if !r.brew_configured {
        "not configured"@
    } else if r.brew_up {
        "connected"@
    } else {
        "disconnected (local-only)"@
    }
}

/// True when radios are attached and have been silent for at least the effective threshold.
pub open spec fn radios_silent(r: RegistryView, now_ms: u64, t: HealthThresholds) -> bool {
    &&& r.registered_radios > 0
    &&& t.radios_silent_degraded_secs > 0
    &&& spec_age_ms(r.last_radio_activity_ms, now_ms) >= spec_effective_radios_silent_secs(
        t.radios_silent_degraded_secs,
        t.periodic_registration_secs,
    ) * 1000
}

pub open spec fn radios_level(r: RegistryView, now_ms: u64, t: HealthThresholds) -> HealthLevel {
    if radios_silent(r, now_ms, t) { HealthLevel::Degraded } else { HealthLevel::Okay }
}

pub open spec fn radios_detail(r: RegistryView, now_ms: u64, t: HealthThresholds) -> Seq<char> {
    if radios_silent(r, now_ms, t) {
        decimal(r.registered_radios as nat) + " attached, silent "@ + decimal(
            (spec_age_ms(r.last_radio_activity_ms, now_ms) / 1000) as nat,
        ) + "s (exceeds "@ + decimal(
            spec_effective_radios_silent_secs(
                t.radios_silent_degraded_secs,
                t.periodic_registration_secs,
            ) as nat,
        ) + "s T351 window)"@
    } else {
        decimal(r.registered_radios as nat) + " attached"@
    }
}

pub open spec fn congestion_level(r: RegistryView, t: HealthThresholds) -> HealthLevel {
    if r.dl_queue_depth >= t.dl_queue_critical || r.sds_queue_depth >= t.sds_queue_critical {
        HealthLevel::Critical
    } else if r.dl_queue_depth >= t.dl_queue_degraded || r.sds_queue_depth >= t.sds_queue_degraded {
        HealthLevel::Degraded
    } else {
        HealthLevel::Okay
    }
}

pub open spec fn congestion_detail(r: RegistryView) -> Seq<char> {
    "dl="@ + decimal(r.dl_queue_depth as nat) + " sds="@ + decimal(r.sds_queue_depth as nat)
}

/// The overall level: the worst of the four domain levels.
pub open spec fn overall_level(r: RegistryView, now_ms: u64, t: HealthThresholds) -> HealthLevel {
    spec_worst(
        spec_worst(
            spec_worst(spec_worst(HealthLevel::Okay, service_level(r, now_ms, t)), backhaul_level(r)),
            radios_level(r, now_ms, t),
        ),
        congestion_level(r, t),
    )
}

/// The snapshot a registry in state `r` gives at `now_ms` (ms since start) and `uptime_secs`.
pub open spec fn snapshot_matches(
    s: HealthSnapshot,
    r: RegistryView,
    now_ms: u64,
    uptime_secs: u64,
    t: HealthThresholds,
) -> bool {
    &&& s.domains@.len() == 4
    &&& s.domains@[0].domain == HealthDomain::Service
    &&& s.domains@[0].level == service_level(r, now_ms, t)
    &&& s.domains@[0].detail@ == service_detail(r, now_ms, t)
    &&& s.domains@[1].domain == HealthDomain::Backhaul
    &&& s.domains@[1].level == backhaul_level(r)
    &&& s.domains@[1].detail@ == backhaul_detail(r)
    &&& s.domains@[2].domain == HealthDomain::Radios
    &&& s.domains@[2].level == radios_level(r, now_ms, t)
    &&& s.domains@[2].detail@ == radios_detail(r, now_ms, t)
    &&& s.domains@[3].domain == HealthDomain::Congestion
    &&& s.domains@[3].level == congestion_level(r, t)
    &&& s.domains@[3].detail@ == congestion_detail(r)
    &&& s.overall == overall_level(r, now_ms, t)
    &&& s.last_action == r.last_action
    &&& s.uptime_secs == uptime_secs
}

/// Law: the overall level is the worst domain level — at least as severe as every domain, and
/// equal to one of them (Okay only when every domain is Okay).
pub proof fn lemma_overall_is_worst_domain(r: RegistryView, now_ms: u64, t: HealthThresholds)
    ensures
        level_rank(overall_level(r, now_ms, t)) >= level_rank(service_level(r, now_ms, t)),
        level_rank(overall_level(r, now_ms, t)) >= level_rank(backhaul_level(r)),
        level_rank(overall_level(r, now_ms, t)) >= level_rank(radios_level(r, now_ms, t)),
        level_rank(overall_level(r, now_ms, t)) >= level_rank(congestion_level(r, t)),
        overall_level(r, now_ms, t) == service_level(r, now_ms, t) || overall_level(r, now_ms, t)
            == backhaul_level(r) || overall_level(r, now_ms, t) == radios_level(r, now_ms, t)
            || overall_level(r, now_ms, t) == congestion_level(r, t),
{
}

/// Law: the Radios domain of a snapshot is Degraded exactly when radios are attached, the
/// silence floor is set, and the radios have been silent for at least the larger of the floor
/// and one and a half periodic-registration intervals (the floor alone when periodic
/// registration is off). In particular a silence shorter than 1.5 x T351 never degrades Radios,
/// and then the overall level is Okay whenever the other three domains are.
pub proof fn lemma_radios_silence_window(s: HealthSnapshot, r: RegistryView, now_ms: u64, uptime_secs: u64, t: HealthThresholds)
    requires
        snapshot_matches(s, r, now_ms, uptime_secs, t),
    ensures
        ({
            let silent_ms = if r.last_radio_activity_ms == 0 {
                now_ms as int
            } else if now_ms >= r.last_radio_activity_ms {
                now_ms - r.last_radio_activity_ms
            } else {
                0
            };
            let floor = t.radios_silent_degraded_secs as int;
            let t351 = t.periodic_registration_secs as int;
            let window = if t351 > 0 && t351 + t351 / 2 > floor { t351 + t351 / 2 } else { floor };
            &&& s.domains@[2].level == (if r.registered_radios > 0 && floor > 0 && silent_ms >= window * 1000 {
                HealthLevel::Degraded
            } else {
                HealthLevel::Okay
            })
            &&& t351 > 0 && silent_ms < (t351 + t351 / 2) * 1000 ==> s.domains@[2].level == HealthLevel::Okay
            &&& t351 > 0 && silent_ms < (t351 + t351 / 2) * 1000 && s.domains@[0].level == HealthLevel::Okay
                && s.domains@[1].level == HealthLevel::Okay && s.domains@[3].level == HealthLevel::Okay ==> s.overall
                == HealthLevel::Okay
        }),
{
}

fn age_ms(stamp_ms: u64, now_ms: u64) -> (a: u64)
    ensures
        a == spec_age_ms(stamp_ms, now_ms),
{
    if stamp_ms == 0 {
        now_ms
    } else {
        now_ms.saturating_sub(stamp_ms)
    }
}

fn string_of(s: &str) -> (r: String)
    ensures
        r@ == s@,
{
    String::from_str(s)
}

impl HealthRegistry {
    pub fn new() -> (r: Self)
        ensures
            r@.last_tick_ms == 0,
            !r@.brew_configured,
            !r@.brew_up,
            r@.registered_radios == 0,
            r@.last_radio_activity_ms == 0,
            r@.dl_queue_depth == 0,
            r@.sds_queue_depth == 0,
            r@.last_action.is_none(),
    {
        HealthRegistry {
            start: instant_now(),
            last_tick_ms: 0,
            brew_configured: false,
            brew_up: false,
            registered_radios: 0,
            last_radio_activity_ms: 0,
            dl_queue_depth: 0,
            sds_queue_depth: 0,
            last_action: None,
        }
    }

    /// Milliseconds since the registry was created.
    pub fn now_ms(&self) -> u64 {
        millis_since(&self.start)
    }

    pub fn uptime_secs(&self) -> u64 {
        secs_since(&self.start)
    }

    /// Stamp a core-loop tick read at `now_ms` (a reading of 0 is stored as 1, since 0 means "never").
    pub fn note_tick_at(&mut self, now_ms: u64)
        ensures
            final(self)@ == (RegistryView {
                last_tick_ms: if now_ms >= 1 { now_ms } else { 1 },
                ..old(self)@
            }),
    {
        self.last_tick_ms = if now_ms >= 1 { now_ms } else { 1 };
    }

    /// Stamp a core-loop tick at the current clock reading.
    pub fn note_tick(&mut self)
        ensures
            exists|now_ms: u64|
                final(self)@ == (RegistryView { last_tick_ms: #[trigger] spec_stamp_ms(now_ms), ..old(self)@ }),
    {
        let now = self.now_ms();
        self.note_tick_at(now);
        assert(self@.last_tick_ms == spec_stamp_ms(now));
    }

    pub fn set_brew_configured(&mut self, on: bool)
        ensures
            final(self)@ == (RegistryView { brew_configured: on, ..old(self)@ }),
    {
        self.brew_configured = on;
    }

    pub fn set_brew_up(&mut self, up: bool)
        ensures
            final(self)@ == (RegistryView { brew_up: up, ..old(self)@ }),
    {
        self.brew_up = up;
    }

    pub fn set_registered_radios(&mut self, n: usize)
        ensures
            final(self)@ == (RegistryView { registered_radios: n, ..old(self)@ }),
    {
        self.registered_radios = n;
    }

    /// Note that some radio was heard on the air at `now_ms` (0 is stored as 1).
    pub fn note_radio_activity_at(&mut self, now_ms: u64)
        ensures
            final(self)@ == (RegistryView {
                last_radio_activity_ms: if now_ms >= 1 { now_ms } else { 1 },
                ..old(self)@
            }),
    {
        self.last_radio_activity_ms = if now_ms >= 1 { now_ms } else { 1 };
    }

    /// Note that some radio was just heard on the air, at the current clock reading.
    pub fn note_radio_activity(&mut self)
        ensures
            exists|now_ms: u64|
                final(self)@ == (RegistryView {
                    last_radio_activity_ms: #[trigger] spec_stamp_ms(now_ms),
                    ..old(self)@
                }),
    {
        let now = self.now_ms();
        self.note_radio_activity_at(now);
        assert(self@.last_radio_activity_ms == spec_stamp_ms(now));
    }

    pub fn set_dl_queue_depth(&mut self, n: usize)
        ensures
            final(self)@ == (RegistryView { dl_queue_depth: n, ..old(self)@ }),
    {
        self.dl_queue_depth = n;
    }

    pub fn set_sds_queue_depth(&mut self, n: usize)
        ensures
            final(self)@ == (RegistryView { sds_queue_depth: n, ..old(self)@ }),
    {
        self.sds_queue_depth = n;
    }

    /// Record a remediation action (shown in the snapshot).
    pub fn record_action(&mut self, what: String)
        ensures
            final(self)@ == (RegistryView { last_action: Some(what), ..old(self)@ }),
    {
        self.last_action = Some(what);
    }

    /// Millis since the last core tick at `now_ms`; with no tick yet, the whole `now_ms`.
    pub fn tick_age_ms_at(&self, now_ms: u64) -> (a: u64)
        ensures
            a == spec_age_ms(self@.last_tick_ms, now_ms),
    {
        age_ms(self.last_tick_ms, now_ms)
    }

    /// Millis since the last core tick (since registry start if none was seen yet).
    pub fn tick_age_ms(&self) -> (a: u64)
        ensures
            exists|now_ms: u64| a == #[trigger] spec_age_ms(self@.last_tick_ms, now_ms),
    {
        let now = self.now_ms();
        self.tick_age_ms_at(now)
    }

    /// The snapshot at `now_ms` milliseconds and `uptime_secs` seconds since registry start.
    pub fn snapshot_at(&self, now_ms: u64, uptime_secs: u64, t: &HealthThresholds) -> (s: HealthSnapshot)
        requires
            t.periodic_registration_secs + t.periodic_registration_secs / 2 <= u64::MAX,
            spec_effective_radios_silent_secs(
                t.radios_silent_degraded_secs,
                t.periodic_registration_secs,
            ) * 1000 <= u64::MAX,
        ensures
            snapshot_matches(s, self@, now_ms, uptime_secs, *t),
    {
        let mut domains: Vec<DomainHealth> = Vec::new();

        // Service liveness (watchdog).
        let age = age_ms(self.last_tick_ms, now_ms);
        let booting = self.last_tick_ms == 0 && now_ms < SERVICE_STARTUP_GRACE_MS;
        let (svc, svc_detail) = if booting {
            (HealthLevel::Okay, string_of("starting"))
        } else if age >= t.core_stall_critical_ms {
            let mut d = string_of("core loop stalled ");
            push_decimal(&mut d, age / 1000);
            d.append("s");
            (HealthLevel::Critical, d)
        } else if age >= t.core_stall_critical_ms / 2 {
            let mut d = string_of("core loop slow (");
            push_decimal(&mut d, age);
            d.append("ms since last tick)");
            (HealthLevel::Degraded, d)
        } else {
            (HealthLevel::Okay, string_of("ticking"))
        };
        domains.push(DomainHealth { domain: HealthDomain::Service, level: svc, detail: svc_detail });

        // Backhaul (Brew). Down is Degraded, not Critical: local service keeps working.
        let (bh, bh_detail) = if !self.brew_configured {
            (HealthLevel::Okay, string_of("not configured"))
        } else if self.brew_up {
            (HealthLevel::Okay, string_of("connected"))
        } else {
            (HealthLevel::Degraded, string_of("disconnected (local-only)"))
        };
        domains.push(DomainHealth { domain: HealthDomain::Backhaul, level: bh, detail: bh_detail });

        // Radios: Degraded only when attached and silent past the T351-aware threshold.
        let radios = self.registered_radios;
        let silent_ms = age_ms(self.last_radio_activity_ms, now_ms);
        let floor = t.radios_silent_degraded_secs;
        let silent_check = floor > 0;
        let effective_secs = effective_radios_silent_secs(floor, t.periodic_registration_secs);
        let (rad, rad_detail) = if radios > 0 && silent_check && silent_ms >= effective_secs * 1000 {
            let mut d = String::new();
            push_decimal(&mut d, radios as u64);
            d.append(" attached, silent ");
            push_decimal(&mut d, silent_ms / 1000);
            d.append("s (exceeds ");
            push_decimal(&mut d, effective_secs);
            d.append("s T351 window)");
            (HealthLevel::Degraded, d)
        } else {
            let mut d = String::new();
            push_decimal(&mut d, radios as u64);
            d.append(" attached");
            (HealthLevel::Okay, d)
        };
        domains.push(DomainHealth { domain: HealthDomain::Radios, level: rad, detail: rad_detail });

        // Congestion (downlink + live-SDS queues).
        let dl = self.dl_queue_depth;
        let sds = self.sds_queue_depth;
        let level = if dl >= t.dl_queue_critical || sds >= t.sds_queue_critical {
            HealthLevel::Critical
        } else if dl >= t.dl_queue_degraded || sds >= t.sds_queue_degraded {
            HealthLevel::Degraded
        } else {
            HealthLevel::Okay
        };
        let mut detail = string_of("dl=");
        push_decimal(&mut detail, dl as u64);
        detail.append(" sds=");
        push_decimal(&mut detail, sds as u64);
        domains.push(DomainHealth { domain: HealthDomain::Congestion, level, detail });

        let mut overall = HealthLevel::Okay;
        let mut i: usize = 0;
        while i < domains.len()
            invariant
                domains@.len() == 4,
                0 <= i <= 4,
                overall == (if i == 0 {
                    HealthLevel::Okay
                } else if i == 1 {
                    spec_worst(HealthLevel::Okay, domains@[0].level)
                } else if i == 2 {
                    spec_worst(spec_worst(HealthLevel::Okay, domains@[0].level), domains@[1].level)
                } else if i == 3 {
                    spec_worst(
                        spec_worst(spec_worst(HealthLevel::Okay, domains@[0].level), domains@[1].level),
                        domains@[2].level,
                    )
                } else {
                    spec_worst(
                        spec_worst(
                            spec_worst(spec_worst(HealthLevel::Okay, domains@[0].level), domains@[1].level),
                            domains@[2].level,
                        ),
                        domains@[3].level,
                    )
                }),
            decreases 4 - i,
        {
            overall = overall.worst(domains[i].level);
            i = i + 1;
        }

        HealthSnapshot {
            overall,
            domains,
            last_action: self.last_action.clone(),
            uptime_secs,
        }
    }

    /// Roll the registry into a snapshot at the current time: the snapshot `snapshot_at` gives
    /// for the clock readings (milliseconds and seconds since registry start) taken now.
    pub fn snapshot(&self, t: &HealthThresholds) -> (s: HealthSnapshot)
        requires
            t.periodic_registration_secs + t.periodic_registration_secs / 2 <= u64::MAX,
            spec_effective_radios_silent_secs(
                t.radios_silent_degraded_secs,
                t.periodic_registration_secs,
            ) * 1000 <= u64::MAX,
        ensures
            exists|now_ms: u64, uptime_secs: u64| #[trigger] snapshot_matches(s, self@, now_ms, uptime_secs, *t),
    {
        let now = self.now_ms();
        let up = self.uptime_secs();
        self.snapshot_at(now, up, t)
    }
}

} // verus!
