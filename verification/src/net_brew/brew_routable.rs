//! Which SSIs and services are routed over the Brew backhaul, and which stay local.
use vstd::prelude::*;

verus! {

/// An inclusive range of SSIs.
#[derive(Debug, Clone, Copy, PartialEq, Eq, Structural)]
pub struct SsiRange {
    pub start: u32,
    pub end: u32,
}

/// The Brew section of the configuration.
pub struct BrewConfig {
    pub host: String,
    pub feature_sds_enabled: bool,
    /// When present, only these SSIs are forwarded through Brew.
    pub whitelisted_ssis: Option<Vec<u32>>,
    /// ISSIs of PBX gateways, routable on TetraPack whatever their length.
    pub pbx_gateway_issis: Option<Vec<u32>>,
}

/// The configuration the routing rules read.
pub struct RoutingConfig {
    /// Brew backhaul settings; `None` when Brew is not configured.
    pub brew: Option<BrewConfig>,
    /// SSI ranges kept local to the cell: never forwarded, and inbound traffic refused.
    pub local_ssi_ranges: Vec<SsiRange>,
}

/// Host name of the TetraPack core.
pub open spec fn tetrapack_host_view() -> Seq<char> {
    "core.tetrapack.online"@
}

/// `ssi` lies in one of the ranges.
pub open spec fn in_ranges(rs: Seq<SsiRange>, ssi: u32) -> bool {
    exists|i: int| #![trigger rs[i]] 0 <= i < rs.len() && rs[i].start <= ssi && ssi <= rs[i].end
}

pub open spec fn spec_is_local(cfg: &RoutingConfig, ssi: u32) -> bool {
    in_ranges(cfg.local_ssi_ranges@, ssi)
}

/// Outbound forwarding of local group traffic for `ssi` to Brew.
pub open spec fn spec_gssi_routable(cfg: &RoutingConfig, ssi: u32) -> bool {
    match cfg.brew {
        None => false,
        Some(b) => !spec_is_local(cfg, ssi) && match b.whitelisted_ssis {
            Some(w) => w@.contains(ssi),
            None => true,
        },
    }
}

/// Admission of Brew-originated traffic (and mirrored subscriber state) for `ssi`.
pub open spec fn spec_inbound_allowed(cfg: &RoutingConfig, ssi: u32) -> bool {
    cfg.brew is Some && !spec_is_local(cfg, ssi)
}

/// Forwarding of individual traffic for `issi` to Brew: on TetraPack only ISSIs of at most
/// seven digits and PBX gateways; elsewhere every ISSI.
pub open spec fn spec_issi_routable(cfg: &RoutingConfig, issi: u32) -> bool {
    match cfg.brew {
        None => false,
        Some(b) => if b.host@ == tetrapack_host_view() {
            issi <= 9_999_999 || match b.pbx_gateway_issis {
                Some(p) => p@.contains(issi),
                None => false,
            }
        } else {
            true
        },
    }
}

fn vec_contains(v: &Vec<u32>, x: u32) -> (r: bool)
    ensures
        r == v@.contains(x),
{
    let mut i: usize = 0;
    while i < v.len()
        invariant
            i <= v@.len(),
            forall|j: int| 0 <= j < i ==> v@[j] != x,
        decreases v@.len() - i,
    {
        if v[i] == x {
            assert(v@[i as int] == x);
            return true;
        }
        i = i + 1;
    }
    false
}

/// Whether `ssi` lies in a configured local-only range.
pub fn is_local_ssi(cfg: &RoutingConfig, ssi: u32) -> (r: bool)
    ensures
        r == spec_is_local(cfg, ssi),
{
    let rs = &cfg.local_ssi_ranges;
    let mut i: usize = 0;
    while i < rs.len()
        invariant
            rs@ == cfg.local_ssi_ranges@,
            i <= rs@.len(),
            forall|j: int| #![trigger rs@[j]] 0 <= j < i ==> !(rs@[j].start <= ssi && ssi <= rs@[j].end),
        decreases rs@.len() - i,
    {
        if rs[i].start <= ssi && ssi <= rs[i].end {
            assert(rs@[i as int].start <= ssi && ssi <= rs@[i as int].end);
            return true;
        }
        i = i + 1;
    }
    false
}

/// Whether the Brew component is configured.
pub fn is_active(cfg: &RoutingConfig) -> (r: bool)
    ensures
        r == cfg.brew is Some,
{
    cfg.brew.is_some()
}

/// Whether SDS over Brew is enabled.
pub fn feature_sds_enabled(cfg: &RoutingConfig) -> (r: bool)
    ensures
        r == (cfg.brew matches Some(b) && b.feature_sds_enabled),
{
    match &cfg.brew {
        Some(b) => b.feature_sds_enabled,
        None => false,
    }
}

fn tetrapack_host() -> (s: String)
    ensures
        s@ == tetrapack_host_view(),
{
    "core.tetrapack.online".to_owned()
}

/// Whether the configured Brew server is the TetraPack core.
fn is_tetrapack(cfg: &RoutingConfig) -> (r: bool)
    ensures
        r == (cfg.brew matches Some(b) && b.host@ == tetrapack_host_view()),
{
    match &cfg.brew {
        Some(b) => b.host == tetrapack_host(),
        None => false,
    }
}

fn is_pbx_gateway_issi(cfg: &RoutingConfig, issi: u32) -> (r: bool)
    ensures
        r == (cfg.brew matches Some(b) && (b.pbx_gateway_issis matches Some(p) && p@.contains(issi))),
{
    match &cfg.brew {
        Some(b) => match &b.pbx_gateway_issis {
            Some(p) => vec_contains(p, issi),
            None => false,
        },
        None => false,
    }
}

/// Whether group traffic for `ssi` is forwarded to Brew: Brew configured, `ssi` not local,
/// and, when a whitelist is configured, `ssi` on it.
pub fn is_brew_gssi_routable(cfg: &RoutingConfig, ssi: u32) -> (r: bool)
    ensures
        r == spec_gssi_routable(cfg, ssi),
{
    match &cfg.brew {
        None => false,
        Some(b) => {
            if is_local_ssi(cfg, ssi) {
                return false;
            }
            match &b.whitelisted_ssis {
                Some(w) => vec_contains(w, ssi),
                None => true,
            }
        },
    }
}

/// Whether a Brew-originated inbound call or SDS for `ssi` may be admitted: Brew configured
/// and `ssi` not local. The outbound whitelist does not apply.
pub fn is_brew_inbound_allowed(cfg: &RoutingConfig, ssi: u32) -> (r: bool)
    ensures
        r == spec_inbound_allowed(cfg, ssi),
{
    is_active(cfg) && !is_local_ssi(cfg, ssi)
}

/// Whether Brew-originated subscriber state for `issi` may be mirrored into CMCE: Brew
/// configured and `issi` not local.
pub fn is_brew_external_subscriber_allowed(cfg: &RoutingConfig, issi: u32) -> (r: bool)
    ensures
        r == spec_inbound_allowed(cfg, issi),
{
    is_active(cfg) && !is_local_ssi(cfg, issi)
}

/// Whether individual traffic for `issi` is sent to the Brew server.
pub fn is_brew_issi_routable(cfg: &RoutingConfig, issi: u32) -> (r: bool)
    ensures
        r == spec_issi_routable(cfg, issi),
{
    if cfg.brew.is_none() {
        return false;
    }
    if is_tetrapack(cfg) {
        (issi >= 1_000_000 && issi <= 9_999_999) || issi < 1_000_000 || is_pbx_gateway_issi(cfg, issi)
    } else {
        true
    }
}

} // verus!
