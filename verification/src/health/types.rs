//! Data model of the stack-health view.
use vstd::prelude::*;

verus! {

/// Health level of a domain (and of the rolled-up overall). Ordered Okay < Degraded < Critical.
#[derive(Debug, Clone, Copy, PartialEq, Eq, Structural)]
pub enum HealthLevel {
    Okay,
    Degraded,
    Critical,
}

/// The severity rank of a level: Okay 0, Degraded 1, Critical 2.
pub open spec fn level_rank(l: HealthLevel) -> int {
    match l {
        HealthLevel::Okay => 0,
        HealthLevel::Degraded => 1,
        HealthLevel::Critical => 2,
    }
}

/// The worse (higher-ranked) of two levels.
pub open spec fn spec_worst(a: HealthLevel, b: HealthLevel) -> HealthLevel {
    if level_rank(a) >= level_rank(b) { a } else { b }
}

/// Lower-case name of a level.
pub open spec fn level_name(l: HealthLevel) -> Seq<char> {
    match l {
        HealthLevel::Okay => seq!['o', 'k'],
        HealthLevel::Degraded => seq!['d', 'e', 'g', 'r', 'a', 'd', 'e', 'd'],
        HealthLevel::Critical => seq!['c', 'r', 'i', 't', 'i', 'c', 'a', 'l'],
    }
}

impl HealthLevel {
    /// The worse (higher) of two levels — used to roll the per-domain levels into `overall`.
    pub fn worst(self, other: Self) -> (r: Self)
        ensures
            r == spec_worst(self, other),
            level_rank(r) >= level_rank(self),
            level_rank(r) >= level_rank(other),
    {
        match (self, other) {
            (HealthLevel::Critical, _) | (_, HealthLevel::Critical) => HealthLevel::Critical,
            (HealthLevel::Degraded, _) | (_, HealthLevel::Degraded) => HealthLevel::Degraded,
            (HealthLevel::Okay, HealthLevel::Okay) => HealthLevel::Okay,
        }
    }

    pub fn as_str(self) -> (s: &'static str)
        ensures
            s@ == level_name(self),
    {
        match self {
            HealthLevel::Okay => {
                proof { reveal_strlit("ok"); }
                "ok"
            },
            HealthLevel::Degraded => {
                proof { reveal_strlit("degraded"); }
                "degraded"
            },
            HealthLevel::Critical => {
                proof { reveal_strlit("critical"); }
                "critical"
            },
        }
    }
}

/// Law: `worst` is commutative, associative and idempotent, and `Okay` is its identity,
/// so the overall level does not depend on the order in which domains are folded.
pub proof fn lemma_worst_is_a_join(a: HealthLevel, b: HealthLevel, c: HealthLevel)
    ensures
        spec_worst(a, b) == spec_worst(b, a),
        spec_worst(spec_worst(a, b), c) == spec_worst(a, spec_worst(b, c)),
        spec_worst(a, a) == a,
        spec_worst(HealthLevel::Okay, a) == a,
        spec_worst(a, HealthLevel::Critical) == HealthLevel::Critical,
{
}

/// The monitored domains: the core loop, the Brew backhaul, attached radios,
/// and downlink/SDS congestion.
#[derive(Debug, Clone, Copy, PartialEq, Eq, Structural)]
pub enum HealthDomain {
    /// The TETRA core loop is ticking (liveness watchdog).
    Service,
    /// Brew/TetraPack backhaul link.
    Backhaul,
    /// Attached mobile radios.
    Radios,
    /// Downlink / SDS queue pressure.
    Congestion,
}

/// Lower-case name of a domain.
pub open spec fn domain_name(d: HealthDomain) -> Seq<char> {
    match d {
        HealthDomain::Service => seq!['s', 'e', 'r', 'v', 'i', 'c', 'e'],
        HealthDomain::Backhaul => seq!['b', 'a', 'c', 'k', 'h', 'a', 'u', 'l'],
        HealthDomain::Radios => seq!['r', 'a', 'd', 'i', 'o', 's'],
        HealthDomain::Congestion => seq!['c', 'o', 'n', 'g', 'e', 's', 't', 'i', 'o', 'n'],
    }
}

impl HealthDomain {
    pub fn as_str(self) -> (s: &'static str)
        ensures
            s@ == domain_name(self),
    {
        match self {
            HealthDomain::Service => {
                proof { reveal_strlit("service"); }
                "service"
            },
            HealthDomain::Backhaul => {
                proof { reveal_strlit("backhaul"); }
                "backhaul"
            },
            HealthDomain::Radios => {
                proof { reveal_strlit("radios"); }
                "radios"
            },
            HealthDomain::Congestion => {
                proof { reveal_strlit("congestion"); }
                "congestion"
            },
        }
    }
}

/// One domain's verdict plus a short human-readable detail line.
#[derive(Debug, Clone)]
pub struct DomainHealth {
    pub domain: HealthDomain,
    pub level: HealthLevel,
    pub detail: String,
}

/// A point-in-time view of station health.
#[derive(Debug, Clone)]
pub struct HealthSnapshot {
    /// Worst level across all domains.
    pub overall: HealthLevel,
    pub domains: Vec<DomainHealth>,
    /// The most recent remediation action taken, if any.
    pub last_action: Option<String>,
    /// Seconds since the health registry started.
    pub uptime_secs: u64,
}

} // verus!
