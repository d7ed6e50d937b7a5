//! The MM entity of the base station: registration (location updating), detach and group
//! attachment of the mobile stations, the subscriber registry shared with call control, and
//! the subscriber updates it hands to CMCE and Brew. Every handler takes the fields of the
//! parsed PDU and appends the messages it sends to a queue of `MmAction`s.
use vstd::prelude::*;
use std::collections::{HashMap, HashSet};
use crate::collections::{map_keys, set_elements};
use crate::cmce::cc_bs::subentity::SubscriberAction;
use crate::mm::client_state::{
    MmClientMgr, MmClientProperties, MmClientState, fresh_client, key_order, restored_client, snapshot_entry,
};
use crate::mm::energy_saving::{
    EnergySavingInformation, EnergySavingMode, energy_saving_mode_from_raw, energy_saving_mode_to_raw, grant_energy_saving,
    spec_ee_cycle_frames, spec_energy_saving_mode_from_raw, spec_energy_saving_mode_to_raw, spec_granted_mode,
};
use crate::mm::recovery_cache::{CACHE_VERSION, CacheFile, RecoveryCache, TerminalRecord};
use crate::net_brew::brew_routable::{
    RoutingConfig, is_active, is_brew_gssi_routable, is_brew_issi_routable, spec_gssi_routable, spec_issi_routable,
};

verus! {

broadcast use vstd::std_specs::hash::group_hash_axioms;

/// Where a subscriber update goes.
#[derive(Debug, Clone, Copy, PartialEq, Eq, Structural)]
pub enum UpdateTarget {
    Cmce,
    Brew,
}

/// Location update type (ETSI EN 300 392-2 clause 16.10.35).
#[derive(Debug, Clone, Copy, PartialEq, Eq, Structural)]
pub enum LocationUpdateType {
    RoamingLocationUpdating,
    MigratingLocationUpdating,
    PeriodicLocationUpdating,
    ItsiAttach,
    ServiceRestorationRoamingLocationUpdating,
    ServiceRestorationMigratingLocationUpdating,
    DemandLocationUpdating,
    DisabledMsUpdating,
}

/// Group identity attachment (ETSI EN 300 392-2 clause 16.10.19).
#[derive(Debug, Clone, Copy, PartialEq, Eq, Structural)]
pub struct GroupIdentityAttachment {
    pub lifetime: u8,
    pub class_of_usage: u8,
}

/// One group of an MS's attach/detach request (group identity uplink).
#[derive(Debug, Clone, Copy, PartialEq, Eq, Structural)]
pub struct GroupIdentityUplink {
    pub class_of_usage: Option<u8>,
    /// Detachment type, present for a detach.
    pub detachment_uplink: Option<u8>,
    pub gssi: Option<u32>,
    pub address_extension: Option<u64>,
    pub vgssi: Option<u32>,
}

/// One group of the SwMI's answer (group identity downlink).
#[derive(Debug, Clone, Copy, PartialEq, Eq, Structural)]
pub struct GroupIdentityDownlink {
    pub attachment: Option<GroupIdentityAttachment>,
    pub detachment_uplink: Option<u8>,
    pub gssi: Option<u32>,
}

/// Work that MM hands to the rest of the stack.
pub enum MmAction {
    /// Subscriber update for CMCE or Brew.
    SubscriberUpdate { target: UpdateTarget, issi: u32, groups: Vec<u32>, action: SubscriberAction },
    /// D-ATTACH/DETACH GROUP IDENTITY ACKNOWLEDGEMENT (accept) with the answered groups.
    AttachDetachAck { issi: u32, handle: u32, groups: Vec<GroupIdentityDownlink> },
    /// D-ATTACH/DETACH GROUP IDENTITY ACKNOWLEDGEMENT (accept) listing groups the MS holds,
    /// each attached for good (lifetime 0) with class of usage 4; no group element when empty.
    AttachDetachAckCurrent { issi: u32, handle: u32, gssis: Vec<u32> },
    /// D-ATTACH/DETACH GROUP IDENTITY ACKNOWLEDGEMENT (reject).
    AttachDetachReject { issi: u32, handle: u32 },
    /// D-LOCATION UPDATE ACCEPT; `group_accept` is the group identity location accept element
    /// (accept), holding the answered groups when the MS asked for group changes.
    LocationUpdateAccept {
        issi: u32,
        handle: u32,
        accept_type: LocationUpdateType,
        energy_saving: Option<EnergySavingInformation>,
        scch_info: Option<u8>,
        group_accept: Option<Option<Vec<GroupIdentityDownlink>>>,
    },
    /// D-LOCATION UPDATE REJECT with cause "migration not supported".
    LocationUpdateReject { issi: u32, handle: u32, update_type: LocationUpdateType, address_extension: Option<u64> },
    /// D-LOCATION UPDATE COMMAND asking for a group identity report.
    LocationUpdateCommand { issi: u32, handle: u32 },
    /// D-MM STATUS, change of energy saving mode response, with the granted schedule.
    EnergySavingResponse { issi: u32, handle: u32, energy_saving: EnergySavingInformation },
    /// Unsolicited D-ATTACH/DETACH GROUP IDENTITY (acknowledgement requested, amending the
    /// MS's group list) carrying one group.
    AttachDetachCommand { issi: u32, group: GroupIdentityDownlink },
    /// D-MM STATUS "function not supported" answering a U-MM STATUS of status type `status_uplink`.
    FunctionNotSupported { issi: u32, handle: u32, status_uplink: u8 },
}

/// An `MmAction` with its lists taken as what the receiver reads: subscriber-update groups as a
/// set, answered groups in order.
pub enum MmActionView {
    SubscriberUpdate { target: UpdateTarget, issi: u32, groups: Set<u32>, action: SubscriberAction },
    AttachDetachAck { issi: u32, handle: u32, groups: Seq<GroupIdentityDownlink> },
    AttachDetachAckCurrent { issi: u32, handle: u32, gssis: Set<u32> },
    AttachDetachReject { issi: u32, handle: u32 },
    LocationUpdateAccept {
        issi: u32,
        handle: u32,
        accept_type: LocationUpdateType,
        energy_saving: Option<EnergySavingInformation>,
        scch_info: Option<u8>,
        group_accept: Option<Option<Seq<GroupIdentityDownlink>>>,
    },
    LocationUpdateReject { issi: u32, handle: u32, update_type: LocationUpdateType, address_extension: Option<u64> },
    LocationUpdateCommand { issi: u32, handle: u32 },
    EnergySavingResponse { issi: u32, handle: u32, energy_saving: EnergySavingInformation },
    AttachDetachCommand { issi: u32, group: GroupIdentityDownlink },
    FunctionNotSupported { issi: u32, handle: u32, status_uplink: u8 },
}

pub open spec fn action_view(a: MmAction) -> MmActionView {
    match a {
        MmAction::SubscriberUpdate { target, issi, groups, action } => MmActionView::SubscriberUpdate {
            target,
            issi,
            groups: groups@.to_set(),
            action,
        },
        MmAction::AttachDetachAck { issi, handle, groups } => MmActionView::AttachDetachAck { issi, handle, groups: groups@ },
        MmAction::AttachDetachAckCurrent { issi, handle, gssis } => MmActionView::AttachDetachAckCurrent {
            issi,
            handle,
            gssis: gssis@.to_set(),
        },
        MmAction::AttachDetachReject { issi, handle } => MmActionView::AttachDetachReject { issi, handle },
        MmAction::LocationUpdateAccept { issi, handle, accept_type, energy_saving, scch_info, group_accept } =>
            MmActionView::LocationUpdateAccept {
            issi,
            handle,
            accept_type,
            energy_saving,
            scch_info,
            group_accept: match group_accept {
                Some(Some(v)) => Some(Some(v@)),
                Some(None) => Some(None),
                None => None,
            },
        },
        MmAction::LocationUpdateReject { issi, handle, update_type, address_extension } =>
            MmActionView::LocationUpdateReject { issi, handle, update_type, address_extension },
        MmAction::LocationUpdateCommand { issi, handle } => MmActionView::LocationUpdateCommand { issi, handle },
        MmAction::EnergySavingResponse { issi, handle, energy_saving } => MmActionView::EnergySavingResponse {
            issi,
            handle,
            energy_saving,
        },
        MmAction::AttachDetachCommand { issi, group } => MmActionView::AttachDetachCommand { issi, group },
        MmAction::FunctionNotSupported { issi, handle, status_uplink } => MmActionView::FunctionNotSupported {
            issi,
            handle,
            status_uplink,
        },
    }
}

/// The views of a queue of actions.
pub open spec fn views(q: Seq<MmAction>) -> Seq<MmActionView> {
    q.map_values(|a: MmAction| action_view(a))
}

/// What a subscriber update of `issi` (groups `groups`, `action`) produces: with Brew
/// configured, first an update for Brew holding the groups routed there, sent for a
/// (de)registration of an ISSI Brew may carry and for an (de)affiliation with routed groups;
/// then always the update for CMCE.
pub open spec fn update_views(routing: RoutingConfig, issi: u32, groups: Set<u32>, action: SubscriberAction) -> Seq<
    MmActionView,
> {
    let brew_groups = groups.filter(|g: u32| spec_gssi_routable(&routing, g));
    let to_brew = routing.brew is Some && match action {
        SubscriberAction::Register | SubscriberAction::Deregister => spec_issi_routable(&routing, issi),
        SubscriberAction::Affiliate | SubscriberAction::Deaffiliate => !brew_groups.is_empty(),
    };
    (if to_brew {
        seq![MmActionView::SubscriberUpdate { target: UpdateTarget::Brew, issi, groups: brew_groups, action }]
    } else {
        Seq::empty()
    }) + seq![MmActionView::SubscriberUpdate { target: UpdateTarget::Cmce, issi, groups, action }]
}

/// Law: with Brew configured, registering or de-registering an ISSI that Brew carries always
/// tells Brew first, with that ISSI and action and exactly its groups routed over Brew, whatever
/// its groups (even none); CMCE is told last, with all of them.
pub proof fn lemma_registration_always_reaches_brew(
    routing: RoutingConfig,
    issi: u32,
    groups: Set<u32>,
    action: SubscriberAction,
)
    requires
        routing.brew is Some,
        action == SubscriberAction::Register || action == SubscriberAction::Deregister,
        spec_issi_routable(&routing, issi),
    ensures
        update_views(routing, issi, groups, action).len() == 2,
        update_views(routing, issi, groups, action)[0] matches MmActionView::SubscriberUpdate {
            target: UpdateTarget::Brew,
            issi: i,
            groups: bg,
            action: a,
        } && i == issi && a == action && forall|g: u32|
            #[trigger] bg.contains(g) <==> groups.contains(g) && spec_gssi_routable(&routing, g),
        update_views(routing, issi, groups, action)[1] == (MmActionView::SubscriberUpdate {
            target: UpdateTarget::Cmce,
            issi,
            groups,
            action,
        }),
{
}

/// The part of the stack configuration MM reads.
pub struct MmConfig {
    pub routing: RoutingConfig,
    /// ISSIs allowed to register; empty means an open network.
    pub issi_whitelist: Vec<u32>,
    /// Periodic registration interval in seconds; 0 disables periodic registration.
    pub periodic_registration_secs: u32,
    pub recovery: RecoveryConfig,
}

/// Restart-recovery settings.
pub struct RecoveryConfig {
    /// Most terminals restored from the cache.
    pub max_cached_issis: u32,
    /// ISSIs recovery may restore; empty means all the whitelist allows.
    pub issi_allowlist: Vec<u32>,
    /// Location-update commands replayed per TDMA frame.
    pub replay_per_frame: u32,
    /// Commands sent to one terminal before recovery gives up on it.
    pub max_replay_attempts: u32,
    /// Command an unknown terminal heard on the uplink to register again.
    pub reactive_enabled: bool,
    /// Seconds before such a terminal is commanded again.
    pub reactive_cooldown_secs: u64,
}

pub struct MmBs {
    config: MmConfig,
    /// Whitelist set at run time, replacing the configured one while present.
    whitelist_override: Option<Vec<u32>>,
    /// Subscriber registry shared with call control: registered ISSIs and their groups.
    registry: HashMap<u32, HashSet<u32>>,
    client_mgr: MmClientMgr,
    /// Restart-recovery cache, when recovery is enabled.
    recovery: Option<RecoveryCache>,
    /// ISSIs restored from the cache and not yet re-registered.
    recovery_pending: Vec<u32>,
    /// Location-update commands sent per pending ISSI.
    recovery_attempts: HashMap<u32, u32>,
    /// Frame of the last replay batch.
    recovery_last_frame: Option<i64>,
    /// When (ms) each unknown terminal heard on the uplink was last commanded to register.
    reactive_cooldown: HashMap<u32, u64>,
}

impl MmBs {
    pub closed spec fn clients(&self) -> Map<u32, MmClientProperties> {
        self.client_mgr.clients()
    }

    pub closed spec fn registry(&self) -> Map<u32, Set<u32>> {
        self.registry@.map_values(|s: HashSet<u32>| s@)
    }

    pub closed spec fn routing(&self) -> RoutingConfig {
        self.config.routing
    }

    pub closed spec fn recovery_enabled(&self) -> bool {
        self.recovery is Some
    }

    /// The restart-recovery cache has changes not yet written.
    pub closed spec fn recovery_dirty(&self) -> bool {
        self.recovery matches Some(c) && c.spec_dirty()
    }

    /// The debounce window of the restart-recovery cache, in milliseconds (0 without one).
    pub closed spec fn recovery_debounce_ms(&self) -> u64 {
        match self.recovery {
            Some(c) => c.spec_debounce_ms(),
            None => 0,
        }
    }

    pub closed spec fn recovery_pending(&self) -> Seq<u32> {
        self.recovery_pending@
    }

    pub closed spec fn recovery_attempts(&self) -> Map<u32, u32> {
        self.recovery_attempts@
    }

    pub closed spec fn max_cached_issis(&self) -> u32 {
        self.config.recovery.max_cached_issis
    }

    pub closed spec fn recovery_allowlist(&self) -> Seq<u32> {
        self.config.recovery.issi_allowlist@
    }

    pub closed spec fn replay_per_frame(&self) -> u32 {
        self.config.recovery.replay_per_frame
    }

    pub closed spec fn max_replay_attempts(&self) -> u32 {
        self.config.recovery.max_replay_attempts
    }

    pub closed spec fn last_replay_frame(&self) -> Option<i64> {
        self.recovery_last_frame
    }

    pub closed spec fn reactive_cooldown(&self) -> Map<u32, u64> {
        self.reactive_cooldown@
    }

    pub closed spec fn reactive_enabled(&self) -> bool {
        self.config.recovery.reactive_enabled
    }

    pub closed spec fn reactive_cooldown_secs(&self) -> u64 {
        self.config.recovery.reactive_cooldown_secs
    }

    pub closed spec fn wf(&self) -> bool {
        self.client_mgr.wf()
    }

    /// `new` differs from `self` at most in clients, registry and restart-recovery state.
    pub open spec fn same_config(self, new: Self) -> bool {
        new.routing() == self.routing() && new.recovery_enabled() == self.recovery_enabled()
    }

    pub fn new(config: MmConfig, telemetry: bool) -> (s: Self)
        ensures
            s.wf(),
            s.clients() == Map::<u32, MmClientProperties>::empty(),
            s.registry() == Map::<u32, Set<u32>>::empty(),
            s.routing() == config.routing,
            s.whitelist() == config.issi_whitelist@,
            s.periodic_registration_secs() == config.periodic_registration_secs,
            !s.recovery_enabled(),
            s.recovery_pending().len() == 0,
            s.recovery_attempts() == Map::<u32, u32>::empty(),
            s.last_replay_frame() is None,
            s.reactive_cooldown() == Map::<u32, u64>::empty(),
    {
        let s = MmBs {
            config,
            whitelist_override: None,
            registry: HashMap::new(),
            client_mgr: MmClientMgr::new(telemetry),
            recovery: None,
            recovery_pending: Vec::new(),
            recovery_attempts: HashMap::new(),
            recovery_last_frame: None,
            reactive_cooldown: HashMap::new(),
        };
        assert(s.registry() =~= Map::<u32, Set<u32>>::empty());
        s
    }

    /// Hand a subscriber update of `issi` to Brew (when it carries it) and to CMCE.
    fn emit_subscriber_update(&self, queue: &mut Vec<MmAction>, issi: u32, groups: Vec<u32>, action: SubscriberAction)
        ensures
            views(final(queue)@) == views(old(queue)@) + update_views(self.routing(), issi, groups@.to_set(), action),
    {
        let ghost gs = groups@;
        let ghost q0 = queue@;
        if is_active(&self.config.routing) {
            let mut brew_groups: Vec<u32> = Vec::new();
            let mut i: usize = 0;
            while i < groups.len()
                invariant
                    gs == groups@,
                    i <= gs.len(),
                    brew_groups@.to_set() == gs.take(i as int).to_set().filter(|g: u32| spec_gssi_routable(&self.config.routing, g)),
                decreases gs.len() - i,
            {
                let g = groups[i];
                let ghost bg0 = brew_groups@;
                if is_brew_gssi_routable(&self.config.routing, g) {
                    brew_groups.push(g);
                    proof {
                        bg0.lemma_push_to_set_commute(g);
                    }
                }
                proof {
                    assert(gs.take(i + 1) == gs.take(i as int).push(g));
                    gs.take(i as int).lemma_push_to_set_commute(g);
                    assert(brew_groups@.to_set() =~= gs.take(i + 1).to_set().filter(
                        |g: u32| spec_gssi_routable(&self.config.routing, g),
                    ));
                }
                i = i + 1;
            }
            assert(gs.take(gs.len() as int) == gs);
            let send = match action {
                SubscriberAction::Register | SubscriberAction::Deregister => is_brew_issi_routable(&self.config.routing, issi),
                SubscriberAction::Affiliate | SubscriberAction::Deaffiliate => brew_groups.len() > 0,
            };
            proof {
                if brew_groups@.len() > 0 {
                    assert(brew_groups@.to_set().contains(brew_groups@[0]));
                } else {
                    assert(brew_groups@.to_set() =~= Set::<u32>::empty());
                }
            }
            if send {
                queue.push(MmAction::SubscriberUpdate { target: UpdateTarget::Brew, issi, groups: brew_groups, action });
            }
        }
        queue.push(MmAction::SubscriberUpdate { target: UpdateTarget::Cmce, issi, groups, action });
        proof {
            assert(views(queue@) =~= views(q0) + update_views(self.routing(), issi, gs.to_set(), action));
        }
    }
}

impl MmBs {
    /// Mark the restart-recovery cache dirty, when recovery is enabled.
    fn recovery_mark_dirty(&mut self)
        requires
            old(self).wf(),
        ensures
            final(self).wf(),
            final(self).clients() == old(self).clients(),
            final(self).registry() == old(self).registry(),
            final(self).recovery_pending() == old(self).recovery_pending(),
            final(self).recovery_attempts() == old(self).recovery_attempts(),
            old(self).same_config(*final(self)),
            final(self).recovery_dirty() == final(self).recovery_enabled(),
            final(self).client_mgr == old(self).client_mgr,
            final(self).config == old(self).config,
            final(self).whitelist_override == old(self).whitelist_override,
    {
        let r = self.recovery.take();
        match r {
            Some(mut c) => {
                c.mark_dirty();
                self.recovery = Some(c);
            },
            None => {},
        }
    }

    /// Register `issi` in the subscriber registry, with no groups.
    fn registry_register(&mut self, issi: u32)
        ensures
            final(self).registry() == old(self).registry().insert(issi, Set::<u32>::empty()),
            final(self).client_mgr == old(self).client_mgr,
            final(self).recovery == old(self).recovery,
            final(self).recovery_pending@ == old(self).recovery_pending@,
            final(self).recovery_attempts@ == old(self).recovery_attempts@,
            final(self).config == old(self).config,
            final(self).whitelist_override == old(self).whitelist_override,
    {
        self.registry.insert(issi, HashSet::new());
        assert(self.registry() =~= old(self).registry().insert(issi, Set::<u32>::empty()));
    }

    /// Remove `issi` from the subscriber registry.
    fn registry_deregister(&mut self, issi: u32)
        ensures
            final(self).registry() == old(self).registry().remove(issi),
            final(self).client_mgr == old(self).client_mgr,
            final(self).recovery == old(self).recovery,
            final(self).recovery_pending@ == old(self).recovery_pending@,
            final(self).recovery_attempts@ == old(self).recovery_attempts@,
            final(self).config == old(self).config,
            final(self).whitelist_override == old(self).whitelist_override,
    {
        self.registry.remove(&issi);
        assert(self.registry() =~= old(self).registry().remove(issi));
    }

    /// Affiliate `issi` to the groups `gs` in the subscriber registry (registering it when
    /// needed); nothing changes for no groups.
    fn registry_affiliate_all(&mut self, issi: u32, gs: &Vec<u32>)
        ensures
            final(self).registry() == if gs@.len() == 0 {
                old(self).registry()
            } else {
                old(self).registry().insert(
                    issi,
                    (if old(self).registry().contains_key(issi) { old(self).registry()[issi] } else { Set::<u32>::empty() }).union(
                        gs@.to_set(),
                    ),
                )
            },
            final(self).client_mgr == old(self).client_mgr,
            final(self).recovery == old(self).recovery,
            final(self).recovery_pending@ == old(self).recovery_pending@,
            final(self).recovery_attempts@ == old(self).recovery_attempts@,
            final(self).config == old(self).config,
            final(self).whitelist_override == old(self).whitelist_override,
    {
        if gs.len() == 0 {
            return;
        }
        let mut set: HashSet<u32> = match self.registry.remove(&issi) {
            Some(s) => s,
            None => HashSet::new(),
        };
        let ghost base = set@;
        let mut i: usize = 0;
        while i < gs.len()
            invariant
                i <= gs@.len(),
                set@ == base.union(gs@.take(i as int).to_set()),
            decreases gs@.len() - i,
        {
            let g = gs[i];
            set.insert(g);
            proof {
                assert(gs@.take(i + 1) == gs@.take(i as int).push(g));
                gs@.take(i as int).lemma_push_to_set_commute(g);
                assert(set@ =~= base.union(gs@.take(i + 1).to_set()));
            }
            i = i + 1;
        }
        assert(gs@.take(gs@.len() as int) == gs@);
        self.registry.insert(issi, set);
        proof {
            assert(self.registry() =~= old(self).registry().insert(
                issi,
                (if old(self).registry().contains_key(issi) { old(self).registry()[issi] } else { Set::<u32>::empty() }).union(
                    gs@.to_set(),
                ),
            ));
        }
    }

    /// Remove the groups `gs` from the registry entry of `issi`, when it has one.
    fn registry_deaffiliate_all(&mut self, issi: u32, gs: &Vec<u32>)
        ensures
            final(self).registry() == if old(self).registry().contains_key(issi) {
                old(self).registry().insert(issi, old(self).registry()[issi].difference(gs@.to_set()))
            } else {
                old(self).registry()
            },
            final(self).client_mgr == old(self).client_mgr,
            final(self).recovery == old(self).recovery,
            final(self).recovery_pending@ == old(self).recovery_pending@,
            final(self).recovery_attempts@ == old(self).recovery_attempts@,
            final(self).config == old(self).config,
            final(self).whitelist_override == old(self).whitelist_override,
    {
        let mut set: HashSet<u32> = match self.registry.remove(&issi) {
            Some(s) => s,
            None => {
                assert(self.registry() =~= old(self).registry());
                return;
            },
        };
        let ghost base = set@;
        let mut i: usize = 0;
        while i < gs.len()
            invariant
                i <= gs@.len(),
                set@ == base.difference(gs@.take(i as int).to_set()),
            decreases gs@.len() - i,
        {
            let g = gs[i];
            set.remove(&g);
            proof {
                assert(gs@.take(i + 1) == gs@.take(i as int).push(g));
                gs@.take(i as int).lemma_push_to_set_commute(g);
                assert(set@ =~= base.difference(gs@.take(i + 1).to_set()));
            }
            i = i + 1;
        }
        assert(gs@.take(gs@.len() as int) == gs@);
        self.registry.insert(issi, set);
        proof {
            assert(self.registry() =~= old(self).registry().insert(issi, old(self).registry()[issi].difference(gs@.to_set())));
        }
    }

    /// U-ITSI-DETACH from `issi`: a known MS is forgotten (client and registry), and its group
    /// de-affiliation (when it had groups) and de-registration are handed on; an unknown ISSI
    /// changes nothing but the recovery cache's dirty flag, which is set either way.
    pub fn rx_u_itsi_detach(&mut self, queue: &mut Vec<MmAction>, issi: u32)
        requires
            old(self).wf(),
        ensures
            final(self).wf(),
            old(self).same_config(*final(self)),
            final(self).recovery_dirty() == final(self).recovery_enabled(),
            final(self).recovery_pending() == old(self).recovery_pending(),
            final(self).recovery_attempts() == old(self).recovery_attempts(),
            final(self).whitelist() == old(self).whitelist(),
            final(self).periodic_registration_secs() == old(self).periodic_registration_secs(),
            final(self).clients() == old(self).clients().remove(issi),
            !old(self).clients().contains_key(issi) ==> final(self).registry() == old(self).registry()
                && views(final(queue)@) == views(old(queue)@),
            old(self).clients().contains_key(issi) ==> {
                let groups = old(self).clients()[issi].groups@;
                &&& final(self).registry() == old(self).registry().remove(issi)
                &&& views(final(queue)@) == views(old(queue)@) + (if groups.is_empty() {
                    Seq::<MmActionView>::empty()
                } else {
                    update_views(old(self).routing(), issi, groups, SubscriberAction::Deaffiliate)
                }) + update_views(old(self).routing(), issi, Set::<u32>::empty(), SubscriberAction::Deregister)
            },
    {
        let ghost q0 = queue@;
        match self.client_mgr.remove_client(issi) {
            Some(client) => {
                self.registry_deregister(issi);
                let gs = set_elements(&client.groups);
                if gs.len() > 0 {
                    self.emit_subscriber_update(queue, issi, gs, SubscriberAction::Deaffiliate);
                } else {
                    proof {
                        assert(client.groups@ =~= Set::<u32>::empty()) by {
                            assert(gs@.to_set() =~= Set::<u32>::empty());
                        }
                    }
                }
                let ghost q1 = queue@;
                let e: Vec<u32> = Vec::new();
                assert(e@.to_set() =~= Set::<u32>::empty());
                self.emit_subscriber_update(queue, issi, e, SubscriberAction::Deregister);
                proof {
                    if client.groups@.is_empty() {
                        assert(views(q1) == views(q0));
                    } else {
                        assert(gs@.len() > 0) by {
                            let x = client.groups@.choose();
                            assert(gs@.to_set().contains(x));
                        }
                    }
                    assert(views(queue@) =~= views(q0) + (if client.groups@.is_empty() {
                        Seq::<MmActionView>::empty()
                    } else {
                        update_views(old(self).routing(), issi, client.groups@, SubscriberAction::Deaffiliate)
                    }) + update_views(old(self).routing(), issi, Set::<u32>::empty(), SubscriberAction::Deregister));
                }
            },
            None => {},
        }
        self.recovery_mark_dirty();
    }
}

/// Answer element for an accepted detach.
pub open spec fn detach_answer(u: GroupIdentityUplink, g: u32) -> GroupIdentityDownlink {
    GroupIdentityDownlink { attachment: None, detachment_uplink: u.detachment_uplink, gssi: Some(g) }
}

/// Answer element for an accepted attach: attached for good (lifetime 0), with the class of
/// usage asked for (0 when none).
pub open spec fn attach_answer(u: GroupIdentityUplink, g: u32) -> GroupIdentityDownlink {
    GroupIdentityDownlink {
        attachment: Some(
            GroupIdentityAttachment {
                lifetime: 0,
                class_of_usage: match u.class_of_usage {
                    Some(c) => c,
                    None => 0,
                },
            },
        ),
        detachment_uplink: None,
        gssi: Some(g),
    }
}

/// Working through the group requests `giu` of a known MS whose groups are `groups0` and whose
/// registry entry is `reg0`: each request for a plain GSSI (no virtual GSSI, no address
/// extension) attaches or detaches it and is answered; requests of any other form are skipped.
/// Gives (groups, registry entry, answers, groups newly attached, groups newly detached).
pub open spec fn attach_fold(groups0: Set<u32>, reg0: Option<Set<u32>>, giu: Seq<GroupIdentityUplink>) -> (
    Set<u32>,
    Option<Set<u32>>,
    Seq<GroupIdentityDownlink>,
    Seq<u32>,
    Seq<u32>,
)
    decreases giu.len(),
{
    if giu.len() == 0 {
        (groups0, reg0, Seq::empty(), Seq::empty(), Seq::empty())
    } else {
        let prev = attach_fold(groups0, reg0, giu.drop_last());
        let u = giu.last();
        match u.gssi {
            None => prev,
            Some(g) => if u.vgssi is Some || u.address_extension is Some {
                prev
            } else if u.detachment_uplink is Some {
                let changed = prev.0.contains(g);
                (
                    prev.0.remove(g),
                    if changed {
                        match prev.1 {
                            Some(e) => Some(e.remove(g)),
                            None => None,
                        }
                    } else {
                        prev.1
                    },
                    prev.2.push(detach_answer(u, g)),
                    prev.3,
                    if changed { prev.4.push(g) } else { prev.4 },
                )
            } else {
                let changed = !prev.0.contains(g);
                (
                    prev.0.insert(g),
                    if changed {
                        Some(
                            match prev.1 {
                                Some(e) => e,
                                None => Set::<u32>::empty(),
                            }.insert(g),
                        )
                    } else {
                        prev.1
                    },
                    prev.2.push(attach_answer(u, g)),
                    if changed { prev.3.push(g) } else { prev.3 },
                    prev.4,
                )
            },
        }
    }
}

proof fn lemma_fold_keeps_entry(groups0: Set<u32>, reg0: Option<Set<u32>>, giu: Seq<GroupIdentityUplink>)
    ensures
        attach_fold(groups0, reg0, giu).1 is None ==> reg0 is None,
    decreases giu.len(),
{
    if giu.len() > 0 {
        lemma_fold_keeps_entry(groups0, reg0, giu.drop_last());
    }
}

/// The registry entry of `issi` in `reg`, if any.
pub open spec fn entry_of(reg: Map<u32, Set<u32>>, issi: u32) -> Option<Set<u32>> {
    if reg.contains_key(issi) { Some(reg[issi]) } else { None }
}

/// `reg` with the entry of `issi` set to `e` when there is one.
pub open spec fn with_entry(reg: Map<u32, Set<u32>>, issi: u32, e: Option<Set<u32>>) -> Map<u32, Set<u32>> {
    match e {
        Some(s) => reg.insert(issi, s),
        None => reg,
    }
}

impl MmBs {
    /// `new` and `q1` follow from `self` and `q0` when known MS `issi` asks for the group
    /// changes `giu`, answered with `answers` (see `attach_fold`): its groups and registry entry
    /// follow the fold, and the newly attached, then the newly detached groups are handed on.
    /// For an unknown ISSI nothing changes and nothing is answered.
    pub open spec fn groups_changed(
        self,
        new: Self,
        q0: Seq<MmAction>,
        q1: Seq<MmAction>,
        issi: u32,
        giu: Seq<GroupIdentityUplink>,
        answers: Seq<GroupIdentityDownlink>,
    ) -> bool {
        &&& !self.clients().contains_key(issi) ==> new.clients() == self.clients() && new.registry() == self.registry()
            && views(q1) == views(q0) && answers.len() == 0
        &&& self.clients().contains_key(issi) ==> {
            let c = self.clients()[issi];
            let f = attach_fold(c.groups@, entry_of(self.registry(), issi), giu);
            &&& new.clients().dom() == self.clients().dom()
            &&& forall|k: u32| k != issi && self.clients().contains_key(k) ==> #[trigger] new.clients()[k] == self.clients()[k]
            &&& new.clients()[issi] == (MmClientProperties { groups: new.clients()[issi].groups, ..c })
            &&& new.clients()[issi].groups@ == f.0
            &&& new.registry() == with_entry(self.registry(), issi, f.1)
            &&& answers == f.2
            &&& views(q1) == views(q0) + (if f.3.len() > 0 {
                update_views(self.routing(), issi, f.3.to_set(), SubscriberAction::Affiliate)
            } else {
                Seq::empty()
            }) + (if f.4.len() > 0 {
                update_views(self.routing(), issi, f.4.to_set(), SubscriberAction::Deaffiliate)
            } else {
                Seq::empty()
            })
        }
    }

    /// Apply the group requests `giu` of MS `issi` (see `groups_changed`).
    fn try_attach_detach_groups(&mut self, queue: &mut Vec<MmAction>, issi: u32, giu: &Vec<GroupIdentityUplink>) -> (r: Vec<
        GroupIdentityDownlink,
    >)
        requires
            old(self).wf(),
        ensures
            final(self).wf(),
            old(self).same_config(*final(self)),
            final(self).recovery == old(self).recovery,
            final(self).recovery_pending() == old(self).recovery_pending(),
            final(self).recovery_attempts() == old(self).recovery_attempts(),
            final(self).config == old(self).config,
            final(self).whitelist_override == old(self).whitelist_override,
            old(self).groups_changed(*final(self), old(queue)@, final(queue)@, issi, giu@, r@),
    {
        let ghost s0 = *self;
        let ghost known = s0.clients().contains_key(issi);
        let ghost c0 = s0.clients()[issi];
        let ghost e0 = entry_of(s0.registry(), issi);
        let mut accepted: Vec<GroupIdentityDownlink> = Vec::new();
        let mut aff: Vec<u32> = Vec::new();
        let mut deaff: Vec<u32> = Vec::new();
        let mut i: usize = 0;
        while i < giu.len()
            invariant
                self.wf(),
                i <= giu@.len(),
                s0.same_config(*self),
                self.recovery == s0.recovery,
                self.recovery_pending() == s0.recovery_pending(),
                self.recovery_attempts() == s0.recovery_attempts(),
                self.config == s0.config,
                self.whitelist_override == s0.whitelist_override,
                known == s0.clients().contains_key(issi),
                c0 == s0.clients()[issi],
                e0 == entry_of(s0.registry(), issi),
                !known ==> self.clients() == s0.clients() && self.registry() == s0.registry() && accepted@.len() == 0
                    && aff@.len() == 0 && deaff@.len() == 0,
                known ==> {
                    let f = attach_fold(c0.groups@, e0, giu@.take(i as int));
                    &&& self.clients().dom() == s0.clients().dom()
                    &&& forall|k: u32| k != issi && s0.clients().contains_key(k) ==> #[trigger] self.clients()[k] == s0.clients()[k]
                    &&& self.clients()[issi] == (MmClientProperties { groups: self.clients()[issi].groups, ..c0 })
                    &&& self.clients()[issi].groups@ == f.0
                    &&& self.registry() == with_entry(s0.registry(), issi, f.1)
                    &&& accepted@ == f.2
                    &&& aff@ == f.3
                    &&& deaff@ == f.4
                },
            decreases giu@.len() - i,
        {
            let u = giu[i];
            proof {
                lemma_fold_keeps_entry(c0.groups@, e0, giu@.take(i as int));
                assert(giu@.take(i + 1).drop_last() == giu@.take(i as int));
                assert(giu@.take(i + 1).last() == u);
            }
            match u.gssi {
                None => {},
                Some(g) => {
                    if u.vgssi.is_none() && u.address_extension.is_none() {
                        let detach = u.detachment_uplink.is_some();
                        match self.client_mgr.client_group_attach(issi, g, !detach) {
                            Ok(changed) => {
                                if detach {
                                    if changed {
                                        self.registry_deaffiliate(issi, g);
                                        deaff.push(g);
                                    }
                                    accepted.push(
                                        GroupIdentityDownlink { attachment: None, detachment_uplink: u.detachment_uplink, gssi: Some(g) },
                                    );
                                } else {
                                    if changed {
                                        self.registry_affiliate(issi, g);
                                        aff.push(g);
                                    }
                                    let class_of_usage = match u.class_of_usage {
                                        Some(c) => c,
                                        None => 0,
                                    };
                                    accepted.push(
                                        GroupIdentityDownlink {
                                            attachment: Some(GroupIdentityAttachment { lifetime: 0, class_of_usage }),
                                            detachment_uplink: None,
                                            gssi: Some(g),
                                        },
                                    );
                                }
                            },
                            Err(_) => {},
                        }
                    }
                },
            }
            proof {
                if known {
                    assert(self.registry() =~= with_entry(
                        s0.registry(),
                        issi,
                        attach_fold(c0.groups@, e0, giu@.take(i + 1)).1,
                    ));
                }
            }
            i = i + 1;
        }
        assert(giu@.take(giu@.len() as int) == giu@);
        let ghost q0 = queue@;
        let ghost aff_s = aff@;
        let ghost deaff_s = deaff@;
        if aff.len() > 0 {
            self.emit_subscriber_update(queue, issi, aff, SubscriberAction::Affiliate);
        }
        let ghost q1 = queue@;
        if deaff.len() > 0 {
            self.emit_subscriber_update(queue, issi, deaff, SubscriberAction::Deaffiliate);
        }
        proof {
            assert(views(queue@) =~= views(q0) + (if aff_s.len() > 0 {
                update_views(s0.routing(), issi, aff_s.to_set(), SubscriberAction::Affiliate)
            } else {
                Seq::empty()
            }) + (if deaff_s.len() > 0 {
                update_views(s0.routing(), issi, deaff_s.to_set(), SubscriberAction::Deaffiliate)
            } else {
                Seq::empty()
            }));
        }
        accepted
    }

    /// Affiliate `issi` to `g` in the registry (registering it when needed).
    fn registry_affiliate(&mut self, issi: u32, g: u32)
        ensures
            final(self).registry() == old(self).registry().insert(
                issi,
                match entry_of(old(self).registry(), issi) {
                    Some(e) => e,
                    None => Set::<u32>::empty(),
                }.insert(g),
            ),
            final(self).client_mgr == old(self).client_mgr,
            final(self).recovery == old(self).recovery,
            final(self).recovery_pending@ == old(self).recovery_pending@,
            final(self).recovery_attempts@ == old(self).recovery_attempts@,
            final(self).config == old(self).config,
            final(self).whitelist_override == old(self).whitelist_override,
    {
        let mut set: HashSet<u32> = match self.registry.remove(&issi) {
            Some(s) => s,
            None => HashSet::new(),
        };
        set.insert(g);
        self.registry.insert(issi, set);
        proof {
            assert(self.registry() =~= old(self).registry().insert(
                issi,
                match entry_of(old(self).registry(), issi) {
                    Some(e) => e,
                    None => Set::<u32>::empty(),
                }.insert(g),
            ));
        }
    }

    /// Remove `g` from the registry entry of `issi`, when it has one.
    fn registry_deaffiliate(&mut self, issi: u32, g: u32)
        ensures
            final(self).registry() == match entry_of(old(self).registry(), issi) {
                Some(e) => old(self).registry().insert(issi, e.remove(g)),
                None => old(self).registry(),
            },
            final(self).client_mgr == old(self).client_mgr,
            final(self).recovery == old(self).recovery,
            final(self).recovery_pending@ == old(self).recovery_pending@,
            final(self).recovery_attempts@ == old(self).recovery_attempts@,
            final(self).config == old(self).config,
            final(self).whitelist_override == old(self).whitelist_override,
    {
        match self.registry.remove(&issi) {
            Some(mut set) => {
                set.remove(&g);
                self.registry.insert(issi, set);
                proof {
                    assert(self.registry() =~= old(self).registry().insert(issi, old(self).registry()[issi].remove(g)));
                }
            },
            None => {
                assert(self.registry() =~= old(self).registry());
            },
        }
    }
}

/// Most groups one attach/detach request is worked through: the acknowledgement must fit one PDU.
pub const MAX_GROUPS_PER_ATTACH: usize = 12;

/// U-ATTACH/DETACH GROUP IDENTITY, as far as MM reads it.
pub struct UAttachDetachGroupIdentity {
    /// Detach all groups first.
    pub attach_detach_mode: bool,
    pub group_identity_uplink: Option<Vec<GroupIdentityUplink>>,
}

/// At most the first `MAX_GROUPS_PER_ATTACH` requests.
pub open spec fn clamped(giu: Seq<GroupIdentityUplink>) -> Seq<GroupIdentityUplink> {
    if giu.len() > MAX_GROUPS_PER_ATTACH { giu.take(MAX_GROUPS_PER_ATTACH as int) } else { giu }
}

impl MmBs {
    /// `new` and `q1` follow from `self` and `q0` when MS `issi` asks (at `now_ms`) to detach
    /// all its groups first: an unknown MS is registered afresh (attached) in MM and the
    /// registry and handed on; a known one loses all its groups, handed on as a de-affiliation
    /// when it had any.
    pub open spec fn detached_all(self, new: Self, q0: Seq<MmAction>, q1: Seq<MmAction>, now_ms: u64, issi: u32) -> bool {
        &&& !self.clients().contains_key(issi) ==> {
            &&& new.clients().dom() == self.clients().dom().insert(issi)
            &&& forall|k: u32| k != issi && self.clients().contains_key(k) ==> #[trigger] new.clients()[k] == self.clients()[k]
            &&& crate::mm::client_state::fresh_client(
                new.clients()[issi],
                issi,
                crate::mm::client_state::MmClientState::Attached,
                now_ms,
            )
            &&& new.registry() == self.registry().insert(issi, Set::<u32>::empty())
            &&& views(q1) == views(q0) + update_views(self.routing(), issi, Set::<u32>::empty(), SubscriberAction::Register)
        }
        &&& self.clients().contains_key(issi) ==> {
            let c = self.clients()[issi];
            &&& new.clients().dom() == self.clients().dom()
            &&& forall|k: u32| k != issi && self.clients().contains_key(k) ==> #[trigger] new.clients()[k] == self.clients()[k]
            &&& new.clients()[issi] == (MmClientProperties { groups: new.clients()[issi].groups, ..c })
            &&& new.clients()[issi].groups@ == Set::<u32>::empty()
            &&& new.registry() == if !c.groups@.is_empty() && self.registry().contains_key(issi) {
                self.registry().insert(issi, self.registry()[issi].difference(c.groups@))
            } else {
                self.registry()
            }
            &&& views(q1) == views(q0) + if c.groups@.is_empty() {
                Seq::<MmActionView>::empty()
            } else {
                update_views(self.routing(), issi, c.groups@, SubscriberAction::Deaffiliate)
            }
        }
    }

    /// U-ATTACH/DETACH GROUP IDENTITY from `issi` over `handle`. Without group requests it is
    /// answered with the groups the MS holds. Otherwise the MS first detaches all groups when it
    /// asks so (see `detached_all`), then at most `MAX_GROUPS_PER_ATTACH` requests are worked
    /// through (see `groups_changed`), the recovery cache is marked dirty, and the answers are
    /// acknowledged.
    pub fn rx_u_attach_detach_group_identity(
        &mut self,
        queue: &mut Vec<MmAction>,
        now_ms: u64,
        issi: u32,
        handle: u32,
        pdu: &UAttachDetachGroupIdentity,
    )
        requires
            old(self).wf(),
        ensures
            final(self).wf(),
            old(self).same_config(*final(self)),
            final(self).recovery_pending() == old(self).recovery_pending(),
            final(self).recovery_attempts() == old(self).recovery_attempts(),
            pdu.group_identity_uplink is None ==> final(self).clients() == old(self).clients() && final(self).registry()
                == old(self).registry() && views(final(queue)@) == views(old(queue)@).push(
                MmActionView::AttachDetachAckCurrent {
                    issi,
                    handle,
                    gssis: if old(self).clients().contains_key(issi) {
                        old(self).clients()[issi].groups@
                    } else {
                        Set::<u32>::empty()
                    },
                },
            ),
            pdu.group_identity_uplink matches Some(giu) ==> exists|mid: Self, qm: Seq<MmAction>, m2: Self, q2: Seq<MmAction>, answers: Seq<GroupIdentityDownlink>|
                {
                    &&& (if pdu.attach_detach_mode {
                        old(self).detached_all(mid, old(queue)@, qm, now_ms, issi)
                    } else {
                        mid.clients() == old(self).clients() && mid.registry() == old(self).registry() && views(qm) == views(
                            old(queue)@,
                        )
                    })
                    &&& mid.routing() == old(self).routing()
                    &&& mid.groups_changed(m2, qm, q2, issi, clamped(giu@), answers)
                    &&& final(self).clients() == m2.clients()
                    &&& final(self).registry() == m2.registry()
                    &&& final(self).recovery_dirty() == final(self).recovery_enabled()
                    &&& views(final(queue)@) == views(q2).push(MmActionView::AttachDetachAck { issi, handle, groups: answers })
                },
    {
        let giu = match &pdu.group_identity_uplink {
            Some(g) => g,
            None => {
                let gssis = match self.client_mgr.get_client_by_issi(issi) {
                    Some(c) => set_elements(&c.groups),
                    None => Vec::new(),
                };
                let ghost q0 = queue@;
                let ghost g = gssis@;
                queue.push(MmAction::AttachDetachAckCurrent { issi, handle, gssis });
                proof {
                    assert(views(queue@) =~= views(q0).push(
                        MmActionView::AttachDetachAckCurrent {
                            issi,
                            handle,
                            gssis: if old(self).clients().contains_key(issi) {
                                old(self).clients()[issi].groups@
                            } else {
                                Set::<u32>::empty()
                            },
                        },
                    )) by {
                        if !old(self).clients().contains_key(issi) {
                            assert(g.to_set() =~= Set::<u32>::empty());
                        }
                    }
                }
                return;
            },
        };
        let ghost s0 = *self;
        let ghost q0 = queue@;
        if pdu.attach_detach_mode {
            if !self.client_mgr.client_is_known(issi) {
                let _ = self.client_mgr.try_register_client(issi, true, now_ms);
                self.registry_register(issi);
                let e: Vec<u32> = Vec::new();
                assert(e@.to_set() =~= Set::<u32>::empty());
                self.emit_subscriber_update(queue, issi, e, SubscriberAction::Register);
            } else {
                let prior = match self.client_mgr.get_client_by_issi(issi) {
                    Some(c) => set_elements(&c.groups),
                    None => Vec::new(),
                };
                let _ = self.client_mgr.client_detach_all_groups(issi);
                if prior.len() > 0 {
                    self.registry_deaffiliate_all(issi, &prior);
                    self.emit_subscriber_update(queue, issi, prior, SubscriberAction::Deaffiliate);
                }
                proof {
                    let c = s0.clients()[issi];
                    if c.groups@.is_empty() {
                        assert(prior@.len() == 0) by {
                            if prior@.len() > 0 {
                                assert(prior@.to_set().contains(prior@[0]));
                            }
                        }
                    } else {
                        assert(prior@.len() > 0) by {
                            let x = c.groups@.choose();
                            assert(prior@.to_set().contains(x));
                        }
                    }
                }
            }
        }
        let ghost mid = *self;
        let ghost qm = queue@;
        let mut clamped_giu: Vec<GroupIdentityUplink> = Vec::new();
        let n: usize = if giu.len() > MAX_GROUPS_PER_ATTACH { MAX_GROUPS_PER_ATTACH } else { giu.len() };
        let mut i: usize = 0;
        while i < n
            invariant
                n <= giu@.len(),
                n == if giu@.len() > MAX_GROUPS_PER_ATTACH { MAX_GROUPS_PER_ATTACH as int } else { giu@.len() as int },
                i <= n,
                clamped_giu@ == giu@.take(i as int),
            decreases n - i,
        {
            clamped_giu.push(giu[i]);
            assert(giu@.take(i + 1) == giu@.take(i as int).push(giu@[i as int]));
            i = i + 1;
        }
        assert(clamped_giu@ == clamped(giu@)) by {
            assert(giu@.take(giu@.len() as int) == giu@);
        }
        let answers = self.try_attach_detach_groups(queue, issi, &clamped_giu);
        let ghost m2 = *self;
        let ghost q2 = queue@;
        self.recovery_mark_dirty();
        let ghost a = answers@;
        queue.push(MmAction::AttachDetachAck { issi, handle, groups: answers });
        proof {
            assert(views(queue@) =~= views(q2).push(MmActionView::AttachDetachAck { issi, handle, groups: a }));
            if !pdu.attach_detach_mode {
                assert(views(qm) == views(q0));
            }
        }
    }
}

/// Class of MS element, as far as MM reads it.
#[derive(Debug, Clone, Copy, PartialEq, Eq, Structural)]
pub struct MsClass {
    /// The raw 24-bit element.
    pub raw: u32,
    pub clch_needed: bool,
    pub common_scch: bool,
}

/// Group identity location demand element of a location update.
pub struct GroupIdentityLocationDemand {
    /// 1 = detach all groups before the requests.
    pub attach_detach_mode: u8,
    pub group_identity_uplink: Option<Vec<GroupIdentityUplink>>,
}

/// U-LOCATION UPDATE DEMAND, as far as MM reads it.
pub struct ULocationUpdateDemand {
    pub location_update_type: LocationUpdateType,
    pub request_to_append_la: bool,
    pub cipher_control: bool,
    pub ciphering_parameters_present: bool,
    pub class_of_ms: Option<MsClass>,
    pub energy_saving_mode: Option<EnergySavingMode>,
    pub group_identity_location_demand: Option<GroupIdentityLocationDemand>,
    pub address_extension: Option<u64>,
}

/// The energy-saving grant for a request of `requested` by `issi` (see `grant_energy_saving`).
pub open spec fn granted_info(issi: u32, requested: EnergySavingMode) -> EnergySavingInformation {
    let mode = spec_granted_mode(requested);
    match spec_ee_cycle_frames(mode) {
        None => EnergySavingInformation { energy_saving_mode: mode, frame_number: None, multiframe_number: None },
        Some(cycle) => {
            let phase = (issi % cycle as u32) as int;
            EnergySavingInformation {
                energy_saving_mode: mode,
                frame_number: Some((phase % 18 + 1) as u8),
                multiframe_number: Some((phase / 18 + 1) as u8),
            }
        },
    }
}

/// A migrating location update, which this SwMI cannot accept.
pub open spec fn is_migrating(t: LocationUpdateType) -> bool {
    t == LocationUpdateType::MigratingLocationUpdating || t == LocationUpdateType::ServiceRestorationMigratingLocationUpdating
}

/// A roaming location update: the MS registers afresh (after losing coverage or power).
pub open spec fn is_roaming(t: LocationUpdateType) -> bool {
    t == LocationUpdateType::RoamingLocationUpdating || t == LocationUpdateType::ServiceRestorationRoamingLocationUpdating
}

/// The update asks for nothing this SwMI lacks: no disabled-MS updating, no appended location
/// area, no ciphering.
pub open spec fn update_supported(t: LocationUpdateType, append_la: bool, cipher: bool, cipher_params: bool) -> bool {
    t != LocationUpdateType::DisabledMsUpdating && !append_la && !cipher && !cipher_params
}

/// `issi` may register under whitelist `list` (an empty list admits everyone).
pub open spec fn whitelisted(list: Seq<u32>, issi: u32) -> bool {
    list.len() == 0 || list.contains(issi)
}

/// What forcing the release of the individual calls of `issi` (groups `groups`) hands to CMCE:
/// de-registration, registration and, when it has groups, their affiliation.
pub open spec fn call_release_views(issi: u32, groups: Set<u32>) -> Seq<MmActionView> {
    seq![
        MmActionView::SubscriberUpdate {
            target: UpdateTarget::Cmce,
            issi,
            groups: Set::<u32>::empty(),
            action: SubscriberAction::Deregister,
        },
        MmActionView::SubscriberUpdate {
            target: UpdateTarget::Cmce,
            issi,
            groups: Set::<u32>::empty(),
            action: SubscriberAction::Register,
        },
    ] + if groups.is_empty() {
        Seq::<MmActionView>::empty()
    } else {
        seq![MmActionView::SubscriberUpdate { target: UpdateTarget::Cmce, issi, groups, action: SubscriberAction::Affiliate }]
    }
}

/// The registry entry of `issi` in `reg` (empty when none) joined with `groups`.
pub open spec fn entry_with(reg: Map<u32, Set<u32>>, issi: u32, groups: Set<u32>) -> Set<u32> {
    match entry_of(reg, issi) {
        Some(e) => e,
        None => Set::<u32>::empty(),
    }.union(groups)
}

impl MmBs {
    /// The whitelist in force: the one set at run time, else the configured one.
    pub closed spec fn whitelist(&self) -> Seq<u32> {
        match self.whitelist_override {
            Some(l) => l@,
            None => self.config.issi_whitelist@,
        }
    }

    pub closed spec fn periodic_registration_secs(&self) -> u32 {
        self.config.periodic_registration_secs
    }

    /// Stop replaying location-update commands to `issi`, which answered.
    fn recovery_confirm(&mut self, issi: u32)
        requires
            old(self).wf(),
        ensures
            final(self).wf(),
            final(self).clients() == old(self).clients(),
            final(self).registry() == old(self).registry(),
            old(self).same_config(*final(self)),
            final(self).recovery == old(self).recovery,
            final(self).client_mgr == old(self).client_mgr,
            final(self).config == old(self).config,
            final(self).whitelist() == old(self).whitelist(),
            !old(self).recovery_enabled() ==> final(self).recovery_pending() == old(self).recovery_pending()
                && final(self).recovery_attempts() == old(self).recovery_attempts(),
            old(self).recovery_enabled() ==> final(self).recovery_pending() == old(self).recovery_pending().filter(
                |x: u32| x != issi,
            ) && final(self).recovery_attempts() == old(self).recovery_attempts().remove(issi),
            final(self).reactive_cooldown() == old(self).reactive_cooldown().remove(issi),
    {
        self.reactive_cooldown.remove(&issi);
        if self.recovery.is_none() {
            return;
        }
        self.recovery_attempts.remove(&issi);
        let mut kept: Vec<u32> = Vec::new();
        let ghost p = self.recovery_pending@;
        let mut i: usize = 0;
        while i < self.recovery_pending.len()
            invariant
                p == self.recovery_pending@,
                i <= p.len(),
                kept@ == p.take(i as int).filter(|x: u32| x != issi),
            decreases p.len() - i,
        {
            let x = self.recovery_pending[i];
            if x != issi {
                kept.push(x);
            }
            proof {
                assert(p.take(i + 1).drop_last() == p.take(i as int));
                reveal_with_fuel(Seq::filter, 1);
                assert(kept@ == p.take(i + 1).filter(|x: u32| x != issi));
            }
            i = i + 1;
        }
        assert(p.take(p.len() as int) == p);
        self.recovery_pending = kept;
        assert(self.recovery_attempts() =~= old(self).recovery_attempts().remove(issi));
    }

    /// Force CMCE to release the individual calls of `issi` and to restore its groups.
    fn emit_individual_call_release_for_issi(&self, queue: &mut Vec<MmAction>, issi: u32)
        ensures
            views(final(queue)@) == views(old(queue)@) + call_release_views(
                issi,
                if self.clients().contains_key(issi) { self.clients()[issi].groups@ } else { Set::<u32>::empty() },
            ),
    {
        let groups = match self.client_mgr.get_client_by_issi(issi) {
            Some(c) => set_elements(&c.groups),
            None => Vec::new(),
        };
        let ghost g = groups@;
        let ghost q0 = queue@;
        let e1: Vec<u32> = Vec::new();
        let e2: Vec<u32> = Vec::new();
        queue.push(MmAction::SubscriberUpdate { target: UpdateTarget::Cmce, issi, groups: e1, action: SubscriberAction::Deregister });
        queue.push(MmAction::SubscriberUpdate { target: UpdateTarget::Cmce, issi, groups: e2, action: SubscriberAction::Register });
        let n = groups.len();
        if n > 0 {
            queue.push(MmAction::SubscriberUpdate { target: UpdateTarget::Cmce, issi, groups, action: SubscriberAction::Affiliate });
        }
        proof {
            let set = if self.clients().contains_key(issi) { self.clients()[issi].groups@ } else { Set::<u32>::empty() };
            assert(g.to_set() == set) by {
                if !self.clients().contains_key(issi) {
                    assert(g.to_set() =~= Set::<u32>::empty());
                }
            }
            if n > 0 {
                assert(g.to_set().contains(g[0]));
            } else {
                assert(g.to_set() =~= Set::<u32>::empty());
            }
            assert(Seq::<u32>::empty().to_set() =~= Set::<u32>::empty());
            assert(views(queue@) =~= views(q0) + call_release_views(issi, set));
        }
    }
}

/// The group identity location demand as plain values: (attach/detach mode, group requests).
pub open spec fn demand_view(d: Option<GroupIdentityLocationDemand>) -> Option<(u8, Option<Seq<GroupIdentityUplink>>)> {
    match d {
        Some(g) => Some(
            (
                g.attach_detach_mode,
                match g.group_identity_uplink {
                    Some(v) => Some(v@),
                    None => None,
                },
            ),
        ),
        None => None,
    }
}

/// The energy-saving grant element of a location update: for the mode asked for, else the
/// mode the MS had, else none.
pub open spec fn esi_for(issi: u32, asked: Option<EnergySavingMode>, prior: Option<EnergySavingMode>) -> Option<
    EnergySavingInformation,
> {
    match asked {
        Some(m) => Some(granted_info(issi, m)),
        None => match prior {
            Some(m) => Some(granted_info(issi, m)),
            None => None,
        },
    }
}

/// SCCH information for an MS that needs the common SCCH on frame 18: one SCCH, on timeslot 1.
pub open spec fn scch_for(class: Option<MsClass>) -> Option<u8> {
    match class {
        Some(c) => if c.clch_needed || c.common_scch { Some(1u8) } else { None },
        None => None,
    }
}

impl MmBs {
    /// The configuration, whitelist and recovery cache state of `new` are those of `self`.
    pub open spec fn same_rest(self, new: Self) -> bool {
        &&& self.same_config(new)
        &&& new.recovery_dirty() == self.recovery_dirty()
        &&& new.whitelist() == self.whitelist()
        &&& new.periodic_registration_secs() == self.periodic_registration_secs()
    }

    /// `new` and `q1` follow from `self` and `q0` when `issi` registers (location update of type
    /// `t`, over `handle`, at `now_ms`, energy-saving grant `esi`). An unknown MS is registered
    /// attached in MM and the registry and handed on. A known MS re-registering by roaming within
    /// two minutes of its last registration keeps its state but has its individual calls
    /// released; one roaming after longer is de-registered and registered again in CMCE and Brew
    /// with its groups restored; a returning ITSI attach, or an MS missing from the registry, is
    /// registered again. Either way it is attached, its timer restarted, and its link handle and
    /// energy-saving schedule stored.
    pub open spec fn registration_step(
        self,
        new: Self,
        q0: Seq<MmAction>,
        q1: Seq<MmAction>,
        now_ms: u64,
        issi: u32,
        handle: u32,
        t: LocationUpdateType,
        esi: Option<EnergySavingInformation>,
    ) -> bool {
        let esm = match esi {
            Some(e) => e.energy_saving_mode,
            None => EnergySavingMode::StayAlive,
        };
        let mf = match esi {
            Some(e) => e.frame_number,
            None => None,
        };
        let mmf = match esi {
            Some(e) => e.multiframe_number,
            None => None,
        };
        let none = Set::<u32>::empty();
        &&& self.same_rest(new)
        &&& !self.clients().contains_key(issi) ==> {
            let n = new.clients()[issi];
            &&& new.clients().dom() == self.clients().dom().insert(issi)
            &&& forall|k: u32| k != issi && self.clients().contains_key(k) ==> #[trigger] new.clients()[k] == self.clients()[k]
            &&& n.issi == issi && n.state == MmClientState::Attached && n.groups@ == none
            &&& n.energy_saving_mode == esm && n.monitoring_frame == mf && n.monitoring_multiframe == mmf
            &&& n.last_registration_ms == now_ms && n.class_of_ms is None && n.last_handle == handle && n.tei is None
            &&& new.registry() == self.registry().insert(issi, none)
            &&& views(q1) == views(q0) + update_views(self.routing(), issi, none, SubscriberAction::Register)
        }
        &&& self.clients().contains_key(issi) ==> {
            let c = self.clients()[issi];
            let g0 = c.groups@;
            let recently = (now_ms as int) < c.last_registration_ms + 120000;
            let soft = is_roaming(t) && recently;
            let cleanup = is_roaming(t) && !recently;
            let was_dropped = !self.registry().contains_key(issi);
            let reg1 = if cleanup && !g0.is_empty() {
                self.registry().insert(issi, entry_with(self.registry(), issi, g0))
            } else {
                self.registry()
            };
            &&& new.clients().dom() == self.clients().dom()
            &&& forall|k: u32| k != issi && self.clients().contains_key(k) ==> #[trigger] new.clients()[k] == self.clients()[k]
            &&& new.clients()[issi] == (MmClientProperties {
                state: MmClientState::Attached,
                last_handle: handle,
                energy_saving_mode: esm,
                monitoring_frame: mf,
                monitoring_multiframe: mmf,
                last_registration_ms: now_ms,
                groups: new.clients()[issi].groups,
                ..c
            })
            &&& new.clients()[issi].groups@ == g0
            &&& new.registry() == if was_dropped { reg1.insert(issi, none) } else { reg1 }
            &&& views(q1) == views(q0) + (if soft { call_release_views(issi, g0) } else { Seq::empty() }) + (if cleanup {
                (if g0.is_empty() {
                    Seq::empty()
                } else {
                    update_views(self.routing(), issi, g0, SubscriberAction::Deaffiliate)
                }) + update_views(self.routing(), issi, none, SubscriberAction::Deregister) + update_views(
                    self.routing(),
                    issi,
                    none,
                    SubscriberAction::Register,
                ) + (if g0.is_empty() {
                    Seq::empty()
                } else {
                    update_views(self.routing(), issi, g0, SubscriberAction::Affiliate)
                })
            } else {
                Seq::empty()
            }) + (if t == LocationUpdateType::ItsiAttach || was_dropped {
                update_views(self.routing(), issi, none, SubscriberAction::Register)
            } else {
                Seq::empty()
            })
        }
    }

    #[verifier::rlimit(60)]
    #[verifier::spinoff_prover]
    fn registration_stage(
        &mut self,
        queue: &mut Vec<MmAction>,
        now_ms: u64,
        issi: u32,
        handle: u32,
        t: LocationUpdateType,
        esi: Option<EnergySavingInformation>,
    )
        requires
            old(self).wf(),
        ensures
            final(self).wf(),
            final(self).recovery == old(self).recovery,
            final(self).config == old(self).config,
            final(self).whitelist_override == old(self).whitelist_override,
            final(self).recovery_pending() == old(self).recovery_pending(),
            final(self).recovery_attempts() == old(self).recovery_attempts(),
            old(self).registration_step(*final(self), old(queue)@, final(queue)@, now_ms, issi, handle, t, esi),
    {
        let ghost s0 = *self;
        let ghost q0 = queue@;
        let known = self.client_mgr.client_is_known(issi);
        let was_dropped = known && !self.registry.contains_key(&issi);
        let ghost q_soft = queue@;
        let ghost q_clean = queue@;
        if known {
            let last = self.client_mgr.get_client_by_issi(issi).unwrap().last_registration_ms;
            let recently = if now_ms >= last { now_ms - last < 120000 } else { true };
            let roaming = match t {
                LocationUpdateType::RoamingLocationUpdating | LocationUpdateType::ServiceRestorationRoamingLocationUpdating => true,
                _ => false,
            };
            if roaming {
                if recently {
                    self.emit_individual_call_release_for_issi(queue, issi);
                    proof {
                        q_soft = queue@;
                        q_clean = queue@;
                    }
                } else {
                    let old_groups = set_elements(&self.client_mgr.get_client_by_issi(issi).unwrap().groups);
                    let n = old_groups.len();
                    if n > 0 {
                        let gs = set_elements(&self.client_mgr.get_client_by_issi(issi).unwrap().groups);
                        self.emit_subscriber_update(queue, issi, gs, SubscriberAction::Deaffiliate);
                    }
                    let e1: Vec<u32> = Vec::new();
                    let e2: Vec<u32> = Vec::new();
                    assert(e1@.to_set() =~= Set::<u32>::empty());
                    assert(e2@.to_set() =~= Set::<u32>::empty());
                    self.emit_subscriber_update(queue, issi, e1, SubscriberAction::Deregister);
                    self.emit_subscriber_update(queue, issi, e2, SubscriberAction::Register);
                    if n > 0 {
                        self.registry_affiliate_all(issi, &old_groups);
                        self.emit_subscriber_update(queue, issi, old_groups, SubscriberAction::Affiliate);
                    }
                    proof {
                        let g0 = s0.clients()[issi].groups@;
                        if n > 0 {
                            assert(!g0.is_empty()) by {
                                assert(g0.contains(old_groups@[0]));
                            }
                        } else {
                            assert(g0.is_empty()) by {
                                assert(old_groups@.to_set() =~= Set::<u32>::empty());
                            }
                        }
                        q_clean = queue@;
                    }
                }
            }
            self.client_mgr.reset_registration_timer(issi, now_ms);
        }
        let ghost q_mid = queue@;
        if !known {
            let _ = self.client_mgr.try_register_client(issi, true, now_ms);
            self.registry_register(issi);
        } else {
            let _ = self.client_mgr.set_client_state(issi, MmClientState::Attached);
        }
        if was_dropped {
            self.registry_register(issi);
        }
        let itsi = match t {
            LocationUpdateType::ItsiAttach => true,
            _ => false,
        };
        if !known || itsi || was_dropped {
            let e: Vec<u32> = Vec::new();
            assert(e@.to_set() =~= Set::<u32>::empty());
            self.emit_subscriber_update(queue, issi, e, SubscriberAction::Register);
        }
        self.client_mgr.set_client_handle(issi, handle);
        let esm = match esi {
            Some(e) => e.energy_saving_mode,
            None => EnergySavingMode::StayAlive,
        };
        let _ = self.client_mgr.set_client_energy_saving_mode(issi, esm);
        let mf = match esi {
            Some(e) => e.frame_number,
            None => None,
        };
        let mmf = match esi {
            Some(e) => e.multiframe_number,
            None => None,
        };
        let _ = self.client_mgr.set_client_monitoring_window(issi, mf, mmf);
        proof {
            let none = Set::<u32>::empty();
            if !known {
                assert(self.clients().dom() =~= s0.clients().dom().insert(issi));
            }
            if known {
                let c = s0.clients()[issi];
                let g0 = c.groups@;
                let recently = (now_ms as int) < c.last_registration_ms + 120000;
                let soft = is_roaming(t) && recently;
                let cleanup = is_roaming(t) && !recently;
                let soft_part = if soft { call_release_views(issi, g0) } else { Seq::<MmActionView>::empty() };
                let clean_part = if cleanup {
                    (if g0.is_empty() {
                        Seq::<MmActionView>::empty()
                    } else {
                        update_views(s0.routing(), issi, g0, SubscriberAction::Deaffiliate)
                    }) + update_views(s0.routing(), issi, none, SubscriberAction::Deregister) + update_views(
                        s0.routing(),
                        issi,
                        none,
                        SubscriberAction::Register,
                    ) + (if g0.is_empty() {
                        Seq::<MmActionView>::empty()
                    } else {
                        update_views(s0.routing(), issi, g0, SubscriberAction::Affiliate)
                    })
                } else {
                    Seq::<MmActionView>::empty()
                };
                assert(views(q_mid) =~= views(q0) + soft_part + clean_part);
                assert(self.clients().dom() =~= s0.clients().dom());
                assert(self.clients()[issi] =~~= (MmClientProperties {
                    state: MmClientState::Attached,
                    last_handle: handle,
                    energy_saving_mode: esm,
                    monitoring_frame: mf,
                    monitoring_multiframe: mmf,
                    last_registration_ms: now_ms,
                    groups: self.clients()[issi].groups,
                    ..c
                }));
            }
        }
    }
}

impl MmBs {
    /// `new`, `q1` and the group identity location accept `gila` follow from `self` and `q0` for
    /// the group part of a location update of registered MS `issi`. Without a group demand, a
    /// known MS re-registering keeps its groups and has them affiliated again in the registry and
    /// handed on (coverage return); nothing is answered. With one, the MS first detaches all its
    /// groups when its mode is 1 (see `detached_all`), then its group requests are worked
    /// through (see `groups_changed`) and answered.
    pub open spec fn group_report_step(
        self,
        new: Self,
        q0: Seq<MmAction>,
        q1: Seq<MmAction>,
        issi: u32,
        demand: Option<(u8, Option<Seq<GroupIdentityUplink>>)>,
        known: bool,
        gila: Option<Option<Seq<GroupIdentityDownlink>>>,
    ) -> bool {
        &&& self.same_rest(new)
        &&& match demand {
            None => {
                let g = self.clients()[issi].groups@;
                &&& gila is None
                &&& new.clients() == self.clients()
                &&& if known && !g.is_empty() {
                    new.registry() == self.registry().insert(issi, entry_with(self.registry(), issi, g)) && views(q1)
                        == views(q0) + update_views(self.routing(), issi, g, SubscriberAction::Affiliate)
                } else {
                    new.registry() == self.registry() && views(q1) == views(q0)
                }
            },
            Some((mode, up)) => exists|mid: Self, qm: Seq<MmAction>|
                #![trigger mid.routing(), views(qm)]
                {
                    &&& (if mode == 1 {
                        self.detached_all(mid, q0, qm, 0, issi)
                    } else {
                        mid.clients() == self.clients() && mid.registry() == self.registry() && views(qm) == views(q0)
                    })
                    &&& mid.routing() == self.routing()
                    &&& match up {
                        None => gila == Some(None::<Seq<GroupIdentityDownlink>>) && new.clients() == mid.clients()
                            && new.registry() == mid.registry() && views(q1) == views(qm),
                        Some(giu) => gila matches Some(Some(answers)) && mid.groups_changed(new, qm, q1, issi, giu, answers),
                    }
                },
        }
    }

    /// `new` and `qf` follow from `self` and `q0` when registered MS `issi` has its location
    /// update `pdu` accepted at `now_ms` over `handle`, passing through registration (`s1`, `q1`,
    /// see `registration_step`) and its group report (`s2`, `q2`, answered with `gila`, see
    /// `group_report_step`): its class of MS and registration time are stored, and D-LOCATION
    /// UPDATE ACCEPT is sent (periodic when periodic registration is on), followed, for an MS new
    /// here that neither ITSI-attached nor reported groups, by D-LOCATION UPDATE COMMAND.
    pub open spec fn location_accepted(
        self,
        new: Self,
        q0: Seq<MmAction>,
        qf: Seq<MmAction>,
        now_ms: u64,
        issi: u32,
        handle: u32,
        pdu: ULocationUpdateDemand,
        s1: Self,
        q1: Seq<MmAction>,
        s2: Self,
        q2: Seq<MmAction>,
        gila: Option<Option<Seq<GroupIdentityDownlink>>>,
    ) -> bool {
        let t = pdu.location_update_type;
        let known = self.clients().contains_key(issi);
        let prior = if known { Some(self.clients()[issi].energy_saving_mode) } else { None };
        let esi = esi_for(issi, pdu.energy_saving_mode, prior);
        &&& self.registration_step(s1, q0, q1, now_ms, issi, handle, t, esi)
        &&& s1.group_report_step(s2, q1, q2, issi, demand_view(pdu.group_identity_location_demand), known, gila)
        &&& new.clients().dom() == s2.clients().dom()
        &&& forall|k: u32| k != issi && s2.clients().contains_key(k) ==> #[trigger] new.clients()[k] == s2.clients()[k]
        &&& new.clients()[issi] == (MmClientProperties {
            class_of_ms: match pdu.class_of_ms {
                Some(c) => Some(c.raw),
                None => None,
            },
            last_registration_ms: now_ms,
            groups: new.clients()[issi].groups,
            ..s2.clients()[issi]
        })
        &&& new.clients()[issi].groups@ == s2.clients()[issi].groups@
        &&& new.registry() == s2.registry()
        &&& new.recovery_dirty() == new.recovery_enabled()
        &&& views(qf) == views(q2) + seq![
            MmActionView::LocationUpdateAccept {
                issi,
                handle,
                accept_type: if self.periodic_registration_secs() > 0 {
                    LocationUpdateType::PeriodicLocationUpdating
                } else {
                    t
                },
                energy_saving: esi,
                scch_info: scch_for(pdu.class_of_ms),
                group_accept: gila,
            },
        ] + if !known && t != LocationUpdateType::ItsiAttach && pdu.group_identity_location_demand is None {
            seq![MmActionView::LocationUpdateCommand { issi, handle }]
        } else {
            Seq::<MmActionView>::empty()
        }
    }

    fn group_report_stage(
        &mut self,
        queue: &mut Vec<MmAction>,
        issi: u32,
        demand: &Option<GroupIdentityLocationDemand>,
        known: bool,
    ) -> (gila: Option<Option<Vec<GroupIdentityDownlink>>>)
        requires
            old(self).wf(),
            old(self).clients().contains_key(issi),
        ensures
            final(self).wf(),
            final(self).config == old(self).config,
            final(self).whitelist_override == old(self).whitelist_override,
            final(self).recovery_pending() == old(self).recovery_pending(),
            final(self).recovery_attempts() == old(self).recovery_attempts(),
            old(self).group_report_step(
                *final(self),
                old(queue)@,
                final(queue)@,
                issi,
                demand_view(*demand),
                known,
                match gila {
                    Some(Some(v)) => Some(Some(v@)),
                    Some(None) => Some(None),
                    None => None,
                },
            ),
    {
        let ghost s0 = *self;
        let ghost q0 = queue@;
        match demand {
            None => {
                if known {
                    let stored = set_elements(&self.client_mgr.get_client_by_issi(issi).unwrap().groups);
                    if stored.len() > 0 {
                        self.registry_affiliate_all(issi, &stored);
                        self.emit_subscriber_update(queue, issi, stored, SubscriberAction::Affiliate);
                        proof {
                            assert(!s0.clients()[issi].groups@.is_empty()) by {
                                assert(s0.clients()[issi].groups@.contains(stored@[0]));
                            }
                            assert(stored@.to_set() == s0.clients()[issi].groups@);
                            assert(self.registry() == s0.registry().insert(issi, entry_with(s0.registry(), issi, s0.clients()[issi].groups@)));
                            assert(self.clients() == s0.clients());
                            assert(s0.same_rest(*self));
                        }
                    } else {
                        proof {
                            assert(s0.clients()[issi].groups@.is_empty()) by {
                                assert(stored@.to_set() =~= Set::<u32>::empty());
                            }
                        }
                    }
                }
                proof {
                    assert(s0.group_report_step(*self, q0, queue@, issi, demand_view(*demand), known, None));
                }
                None
            },
            Some(d) => {
                if d.attach_detach_mode == 1 {
                    let prior = set_elements(&self.client_mgr.get_client_by_issi(issi).unwrap().groups);
                    let _ = self.client_mgr.client_detach_all_groups(issi);
                    if prior.len() > 0 {
                        self.registry_deaffiliate_all(issi, &prior);
                        self.emit_subscriber_update(queue, issi, prior, SubscriberAction::Deaffiliate);
                    }
                    proof {
                        let c = s0.clients()[issi];
                        if c.groups@.is_empty() {
                            assert(prior@.len() == 0) by {
                                if prior@.len() > 0 {
                                    assert(prior@.to_set().contains(prior@[0]));
                                }
                            }
                        } else {
                            assert(prior@.len() > 0) by {
                                let x = c.groups@.choose();
                                assert(prior@.to_set().contains(x));
                            }
                        }
                    }
                }
                let ghost mid = *self;
                let ghost qm = queue@;
                proof {
                    if d.attach_detach_mode == 1 {
                        assert(s0.detached_all(mid, q0, qm, 0, issi));
                    } else {
                        assert(mid.clients() == s0.clients() && mid.registry() == s0.registry() && views(qm) == views(q0));
                    }
                    assert(mid.routing() == s0.routing());
                    assert(views(qm).len() == qm.len());
                }
                match &d.group_identity_uplink {
                    Some(giu) => {
                        let answers = self.try_attach_detach_groups(queue, issi, giu);
                        proof {
                            assert(mid.groups_changed(*self, qm, queue@, issi, giu@, answers@));
                            assert(s0.same_rest(*self));
                            assert(demand_view(*demand) == Some((d.attach_detach_mode, Some(giu@))));
                            assert(s0.group_report_step(*self, q0, queue@, issi, demand_view(*demand), known, Some(Some(answers@))));
                        }
                        Some(Some(answers))
                    },
                    None => {
                        proof {
                            assert(s0.same_rest(*self));
                            assert(s0.group_report_step(*self, q0, queue@, issi, demand_view(*demand), known, Some(None)));
                        }
                        Some(None)
                    },
                }
            },
        }
    }

    /// U-LOCATION UPDATE DEMAND from `issi` over `handle` at `now_ms`. The MS answered, so
    /// restart-recovery replay to it stops. A migrating MS is forgotten (and its groups and
    /// registration released) and rejected; an update asking for an unsupported feature is
    /// ignored; an MS outside the whitelist is rejected. Otherwise it is registered (see
    /// `registration_step`) with the energy-saving mode it asks for (else the one it had),
    /// capped, its group report is worked through (see `group_report_step`), its class of MS and
    /// registration time are stored, the recovery cache is marked dirty, and D-LOCATION UPDATE
    /// ACCEPT is sent (periodic when periodic registration is on), followed, for an MS new here
    /// that neither ITSI-attached nor reported groups, by D-LOCATION UPDATE COMMAND asking for
    /// its group report.
    pub fn rx_u_location_update_demand(
        &mut self,
        queue: &mut Vec<MmAction>,
        now_ms: u64,
        issi: u32,
        handle: u32,
        pdu: &ULocationUpdateDemand,
    )
        requires
            old(self).wf(),
        ensures
            final(self).wf(),
            old(self).same_config(*final(self)),
            final(self).whitelist() == old(self).whitelist(),
            !old(self).recovery_enabled() ==> final(self).recovery_pending() == old(self).recovery_pending()
                && final(self).recovery_attempts() == old(self).recovery_attempts(),
            old(self).recovery_enabled() ==> final(self).recovery_pending() == old(self).recovery_pending().filter(
                |x: u32| x != issi,
            ) && final(self).recovery_attempts() == old(self).recovery_attempts().remove(issi),
            ({
                let t = pdu.location_update_type;
                let reject = MmActionView::LocationUpdateReject {
                    issi,
                    handle,
                    update_type: t,
                    address_extension: pdu.address_extension,
                };
                let known = old(self).clients().contains_key(issi);
                let none = Set::<u32>::empty();
                &&& is_migrating(t) ==> {
                    &&& final(self).clients() == old(self).clients().remove(issi)
                    &&& final(self).recovery_dirty() == final(self).recovery_enabled()
                    &&& !known ==> final(self).registry() == old(self).registry() && views(final(queue)@) == views(
                        old(queue)@,
                    ).push(reject)
                    &&& known ==> {
                        let g = old(self).clients()[issi].groups@;
                        &&& final(self).registry() == old(self).registry().remove(issi)
                        &&& views(final(queue)@) == views(old(queue)@) + (if g.is_empty() {
                            Seq::<MmActionView>::empty()
                        } else {
                            update_views(old(self).routing(), issi, g, SubscriberAction::Deaffiliate)
                        }) + update_views(old(self).routing(), issi, none, SubscriberAction::Deregister) + seq![reject]
                    }
                }
                &&& !is_migrating(t) && !update_supported(
                    t,
                    pdu.request_to_append_la,
                    pdu.cipher_control,
                    pdu.ciphering_parameters_present,
                ) ==> final(self).clients() == old(self).clients() && final(self).registry() == old(self).registry()
                    && views(final(queue)@) == views(old(queue)@)
                &&& !is_migrating(t) && update_supported(
                    t,
                    pdu.request_to_append_la,
                    pdu.cipher_control,
                    pdu.ciphering_parameters_present,
                ) && !whitelisted(old(self).whitelist(), issi) ==> final(self).clients() == old(self).clients()
                    && final(self).registry() == old(self).registry() && views(final(queue)@) == views(old(queue)@).push(
                    reject,
                )
                &&& !is_migrating(t) && update_supported(
                    t,
                    pdu.request_to_append_la,
                    pdu.cipher_control,
                    pdu.ciphering_parameters_present,
                ) && whitelisted(old(self).whitelist(), issi) ==> exists|
                    s1: Self,
                    q1: Seq<MmAction>,
                    s2: Self,
                    q2: Seq<MmAction>,
                    gila: Option<Option<Seq<GroupIdentityDownlink>>>,
                |
                    #[trigger] old(self).location_accepted(
                        *final(self),
                        old(queue)@,
                        final(queue)@,
                        now_ms,
                        issi,
                        handle,
                        *pdu,
                        s1,
                        q1,
                        s2,
                        q2,
                        gila,
                    )
            }),
    {
        self.recovery_confirm(issi);
        let ghost s0 = *self;
        let ghost q0 = queue@;
        let t = pdu.location_update_type;
        let migrating = match t {
            LocationUpdateType::MigratingLocationUpdating | LocationUpdateType::ServiceRestorationMigratingLocationUpdating => true,
            _ => false,
        };
        if migrating {
            self.rx_u_itsi_detach(queue, issi);
            let ghost q1 = queue@;
            queue.push(MmAction::LocationUpdateReject { issi, handle, update_type: t, address_extension: pdu.address_extension });
            proof {
                assert(views(queue@) =~= views(q1).push(
                    MmActionView::LocationUpdateReject { issi, handle, update_type: t, address_extension: pdu.address_extension },
                ));
            }
            return;
        }
        let disabled = match t {
            LocationUpdateType::DisabledMsUpdating => true,
            _ => false,
        };
        if disabled || pdu.request_to_append_la || pdu.cipher_control || pdu.ciphering_parameters_present {
            return;
        }
        let prior = match self.client_mgr.get_client_by_issi(issi) {
            Some(c) => Some(c.energy_saving_mode),
            None => None,
        };
        let effective = match pdu.energy_saving_mode {
            Some(m) => Some(m),
            None => prior,
        };
        let esi = match effective {
            Some(m) => Some(grant_energy_saving(issi, m)),
            None => None,
        };
        if !self.issi_allowed(issi) {
            let ghost q1 = queue@;
            queue.push(MmAction::LocationUpdateReject { issi, handle, update_type: t, address_extension: pdu.address_extension });
            proof {
                assert(views(queue@) =~= views(q1).push(
                    MmActionView::LocationUpdateReject { issi, handle, update_type: t, address_extension: pdu.address_extension },
                ));
            }
            return;
        }
        let known = self.client_mgr.client_is_known(issi);
        self.registration_stage(queue, now_ms, issi, handle, t, esi);
        let ghost s1 = *self;
        let ghost q1 = queue@;
        let gila = self.group_report_stage(queue, issi, &pdu.group_identity_location_demand, known);
        let ghost s2 = *self;
        let ghost q2 = queue@;
        let scch: Option<u8> = match pdu.class_of_ms {
            Some(c) => if c.clch_needed || c.common_scch { Some(1) } else { None },
            None => None,
        };
        let class = match pdu.class_of_ms {
            Some(c) => Some(c.raw),
            None => None,
        };
        let _ = self.client_mgr.set_client_class_of_ms(issi, class);
        self.client_mgr.reset_registration_timer(issi, now_ms);
        self.recovery_mark_dirty();
        let accept_type = if self.config.periodic_registration_secs > 0 {
            LocationUpdateType::PeriodicLocationUpdating
        } else {
            t
        };
        let ghost gila_v = match &gila {
            Some(Some(v)) => Some(Some(v@)),
            Some(None) => Some(None),
            None => None,
        };
        let ghost q3 = queue@;
        queue.push(MmAction::LocationUpdateAccept { issi, handle, accept_type, energy_saving: esi, scch_info: scch, group_accept: gila });
        let itsi = match t {
            LocationUpdateType::ItsiAttach => true,
            _ => false,
        };
        let command = !known && !itsi && pdu.group_identity_location_demand.is_none();
        if command {
            queue.push(MmAction::LocationUpdateCommand { issi, handle });
        }
        proof {
            let accept = MmActionView::LocationUpdateAccept {
                issi,
                handle,
                accept_type,
                energy_saving: esi,
                scch_info: scch,
                group_accept: gila_v,
            };
            assert(views(queue@) =~= views(q2) + seq![accept] + if command {
                seq![MmActionView::LocationUpdateCommand { issi, handle }]
            } else {
                Seq::<MmActionView>::empty()
            });
            assert(self.clients().dom() =~= s2.clients().dom());
            let prior_v = if s0.clients().contains_key(issi) { Some(s0.clients()[issi].energy_saving_mode) } else { None };
            assert(esi == esi_for(issi, pdu.energy_saving_mode, prior_v));
            assert(scch == scch_for(pdu.class_of_ms));
            assert(forall|k: u32| k != issi && s2.clients().contains_key(k) ==> #[trigger] self.clients()[k] == s2.clients()[k]);
            assert(old(self).location_accepted(*self, old(queue)@, queue@, now_ms, issi, handle, *pdu, s1, q1, s2, q2, gila_v));
        }
    }

    /// `issi` may register under the whitelist in force.
    fn issi_allowed(&self, issi: u32) -> (r: bool)
        ensures
            r == whitelisted(self.whitelist(), issi),
    {
        let list = match &self.whitelist_override {
            Some(l) => l,
            None => &self.config.issi_whitelist,
        };
        if list.len() == 0 {
            return true;
        }
        let mut i: usize = 0;
        while i < list.len()
            invariant
                i <= list@.len(),
                list@ == self.whitelist(),
                forall|j: int| 0 <= j < i ==> list@[j] != issi,
            decreases list@.len() - i,
        {
            if list[i] == issi {
                assert(list@[i as int] == issi);
                return true;
            }
            i = i + 1;
        }
        false
    }
}


/// Status uplink of a U-MM STATUS, as far as MM tells the types apart.
#[derive(Debug, Clone, Copy, PartialEq, Eq, Structural)]
pub enum StatusUplink {
    ChangeOfEnergySavingModeRequest,
    ChangeOfEnergySavingModeResponse,
    /// Any other status type, by its raw 6-bit value.
    Other(u8),
}

/// The energy saving mode carried in the first 3 bits of the status uplink dependent
/// information (`len` bits of `info`); StayAlive when there is none, it is shorter, or the
/// value does not fit.
pub open spec fn status_energy_saving_mode(info: Option<u64>, len: Option<u32>) -> EnergySavingMode {
    match info {
        Some(v) => {
            let l = match len {
                Some(l) => l,
                None => 0u32,
            };
            if l >= 3 {
                match spec_energy_saving_mode_from_raw(v >> ((l - 3) as u32)) {
                    Some(m) => m,
                    None => EnergySavingMode::StayAlive,
                }
            } else {
                EnergySavingMode::StayAlive
            }
        },
        None => EnergySavingMode::StayAlive,
    }
}

fn status_energy_saving_mode_exec(info: Option<u64>, len: Option<u32>) -> (m: EnergySavingMode)
    requires
        len matches Some(l) ==> l < 67,
    ensures
        m == status_energy_saving_mode(info, len),
{
    match info {
        Some(v) => {
            let l = match len {
                Some(l) => l,
                None => 0,
            };
            if l >= 3 {
                match energy_saving_mode_from_raw(v >> (l - 3)) {
                    Some(m) => m,
                    None => EnergySavingMode::StayAlive,
                }
            } else {
                EnergySavingMode::StayAlive
            }
        },
        None => EnergySavingMode::StayAlive,
    }
}

impl MmBs {
    /// U-MM STATUS from `issi` over `handle` with status type `status` and dependent
    /// information `info` of `info_len` bits. A change-of-energy-saving-mode request is granted
    /// as at registration (see `granted_info`): a known MS gets the granted mode and monitoring
    /// window, the recovery cache is marked dirty, and the grant is answered. A response to a
    /// change the SwMI asked for stores the mode the MS reports and marks the cache dirty. Any
    /// other status type is answered "function not supported".
    pub fn rx_u_mm_status(
        &mut self,
        queue: &mut Vec<MmAction>,
        issi: u32,
        handle: u32,
        status: StatusUplink,
        info: Option<u64>,
        info_len: Option<u32>,
    )
        requires
            old(self).wf(),
            info_len matches Some(l) ==> l < 67,
        ensures
            final(self).wf(),
            old(self).same_config(*final(self)),
            final(self).whitelist() == old(self).whitelist(),
            final(self).periodic_registration_secs() == old(self).periodic_registration_secs(),
            final(self).registry() == old(self).registry(),
            final(self).recovery_pending() == old(self).recovery_pending(),
            final(self).recovery_attempts() == old(self).recovery_attempts(),
            ({
                let known = old(self).clients().contains_key(issi);
                let mode = status_energy_saving_mode(info, info_len);
                match status {
                    StatusUplink::ChangeOfEnergySavingModeRequest => {
                        let esi = granted_info(issi, mode);
                        &&& final(self).clients() == if known {
                            old(self).clients().insert(
                                issi,
                                MmClientProperties {
                                    energy_saving_mode: esi.energy_saving_mode,
                                    monitoring_frame: esi.frame_number,
                                    monitoring_multiframe: esi.multiframe_number,
                                    ..old(self).clients()[issi]
                                },
                            )
                        } else {
                            old(self).clients()
                        }
                        &&& final(self).recovery_dirty() == final(self).recovery_enabled()
                        &&& views(final(queue)@) == views(old(queue)@).push(
                            MmActionView::EnergySavingResponse { issi, handle, energy_saving: esi },
                        )
                    },
                    StatusUplink::ChangeOfEnergySavingModeResponse => {
                        &&& final(self).clients() == if known {
                            old(self).clients().insert(
                                issi,
                                MmClientProperties { energy_saving_mode: mode, ..old(self).clients()[issi] },
                            )
                        } else {
                            old(self).clients()
                        }
                        &&& final(self).recovery_dirty() == final(self).recovery_enabled()
                        &&& views(final(queue)@) == views(old(queue)@)
                    },
                    StatusUplink::Other(raw) => {
                        &&& final(self).clients() == old(self).clients()
                        &&& final(self).recovery_dirty() == old(self).recovery_dirty()
                        &&& views(final(queue)@) == views(old(queue)@).push(
                            MmActionView::FunctionNotSupported { issi, handle, status_uplink: raw },
                        )
                    },
                }
            }),
    {
        let ghost q0 = queue@;
        match status {
            StatusUplink::ChangeOfEnergySavingModeRequest => {
                let mode = status_energy_saving_mode_exec(info, info_len);
                let esi = grant_energy_saving(issi, mode);
                let _ = self.client_mgr.set_client_energy_saving_mode(issi, esi.energy_saving_mode);
                let _ = self.client_mgr.set_client_monitoring_window(issi, esi.frame_number, esi.multiframe_number);
                self.recovery_mark_dirty();
                queue.push(MmAction::EnergySavingResponse { issi, handle, energy_saving: esi });
                proof {
                    assert(esi == granted_info(issi, mode));
                    assert(views(queue@) =~= views(q0).push(MmActionView::EnergySavingResponse { issi, handle, energy_saving: esi }));
                }
            },
            StatusUplink::ChangeOfEnergySavingModeResponse => {
                let mode = status_energy_saving_mode_exec(info, info_len);
                let _ = self.client_mgr.set_client_energy_saving_mode(issi, mode);
                self.recovery_mark_dirty();
            },
            StatusUplink::Other(raw) => {
                queue.push(MmAction::FunctionNotSupported { issi, handle, status_uplink: raw });
                proof {
                    assert(views(queue@) =~= views(q0).push(MmActionView::FunctionNotSupported { issi, handle, status_uplink: raw }));
                }
            },
        }
    }
}


/// The raw energy-saving mode of a cache record as a mode: StayAlive when it has none.
pub open spec fn record_mode(raw: u8) -> EnergySavingMode {
    match spec_energy_saving_mode_from_raw(raw as u64) {
        Some(m) => m,
        None => EnergySavingMode::StayAlive,
    }
}

/// Recovery may restore `issi`: the whitelist in force admits it, and the recovery allowlist is
/// empty or lists it.
pub open spec fn recovery_admits(whitelist: Seq<u32>, allowlist: Seq<u32>, issi: u32) -> bool {
    whitelisted(whitelist, issi) && (allowlist.len() == 0 || allowlist.contains(issi))
}

/// The cache records restored: among the first `max` records, those recovery admits, in order.
pub open spec fn restored_records(recs: Seq<TerminalRecord>, max: u32, whitelist: Seq<u32>, allowlist: Seq<u32>) -> Seq<
    TerminalRecord,
> {
    (if recs.len() > max { recs.take(max as int) } else { recs }).filter(
        |r: TerminalRecord| recovery_admits(whitelist, allowlist, r.issi),
    )
}

/// The ISSIs of records `rs`, in order.
pub open spec fn record_issis(rs: Seq<TerminalRecord>) -> Seq<u32> {
    rs.map_values(|r: TerminalRecord| r.issi)
}

/// Record `i` of `rs` is the last one of its ISSI.
pub open spec fn last_of_issi(rs: Seq<TerminalRecord>, i: int) -> bool {
    forall|j: int| i < j < rs.len() ==> #[trigger] rs[j].issi != rs[i].issi
}

/// What one replay batch does to the pending queue `p` and the attempt counts `a` with
/// `budget` commands left, giving up on a terminal after `max` commands: the head of the queue
/// is taken; one no longer counted (it re-registered) is dropped; one at the limit is dropped
/// and forgotten; any other is commanded, counted and queued again at the back. Returns the
/// queue, the counts and the ISSIs commanded, in order.
pub open spec fn replay_batch(p: Seq<u32>, a: Map<u32, u32>, budget: nat, max: u32) -> (Seq<u32>, Map<u32, u32>, Seq<u32>)
    decreases budget,
{
    if budget == 0 || p.len() == 0 {
        (p, a, Seq::empty())
    } else {
        let issi = p[0];
        let rest = p.drop_first();
        if !a.contains_key(issi) {
            replay_batch(rest, a, (budget - 1) as nat, max)
        } else if a[issi] >= max {
            replay_batch(rest, a.remove(issi), (budget - 1) as nat, max)
        } else {
            let r = replay_batch(rest.push(issi), a.insert(issi, (a[issi] + 1) as u32), (budget - 1) as nat, max);
            (r.0, r.1, seq![issi] + r.2)
        }
    }
}

/// One replay batch commands each terminal at most once and never more terminals than its
/// budget, when the pending queue holds each terminal once and the budget does not exceed it:
/// the terminals commanded are distinct and all among the first `budget` pending.
pub proof fn lemma_replay_commands_each_terminal_once(p: Seq<u32>, a: Map<u32, u32>, budget: nat, max: u32)
    requires
        p.no_duplicates(),
        budget <= p.len(),
    ensures
        replay_batch(p, a, budget, max).2.no_duplicates(),
        replay_batch(p, a, budget, max).2.len() <= budget,
        forall|x: u32| replay_batch(p, a, budget, max).2.contains(x) ==> p.take(budget as int).contains(x),
    decreases budget,
{
    if budget == 0 || p.len() == 0 {
        return;
    }
    let issi = p[0];
    let rest = p.drop_first();
    let b1 = (budget - 1) as nat;
    assert(!rest.contains(issi)) by {
        if rest.contains(issi) {
            let w = choose|w: int| 0 <= w < rest.len() && rest[w] == issi;
            assert(p[w + 1] == p[0]);
        }
    }
    assert(rest.no_duplicates()) by {
        assert forall|i: int, j: int| 0 <= i < rest.len() && 0 <= j < rest.len() && i != j implies rest[i] != rest[j] by {
            assert(rest[i] == p[i + 1] && rest[j] == p[j + 1]);
        }
    }
    let p1 = if !a.contains_key(issi) || a[issi] >= max { rest } else { rest.push(issi) };
    let a1 = if !a.contains_key(issi) { a } else if a[issi] >= max { a.remove(issi) } else { a.insert(issi, (a[issi] + 1) as u32) };
    assert(p1.no_duplicates()) by {
        if p1 != rest {
            assert forall|i: int, j: int| 0 <= i < p1.len() && 0 <= j < p1.len() && i != j implies p1[i] != p1[j] by {
                if i < rest.len() && j < rest.len() {
                    assert(p1[i] == rest[i] && p1[j] == rest[j]);
                } else if i < rest.len() {
                    assert(p1[i] == rest[i]);
                } else if j < rest.len() {
                    assert(p1[j] == rest[j]);
                }
            }
        }
    }
    lemma_replay_commands_each_terminal_once(p1, a1, b1, max);
    let sub = replay_batch(p1, a1, b1, max).2;
    assert(p1.take(b1 as int) =~= p.subrange(1, budget as int));
    assert forall|x: u32| sub.contains(x) implies p.take(budget as int).contains(x) && x != issi by {
        assert(p1.take(b1 as int).contains(x));
        let w = choose|w: int| 0 <= w < p1.take(b1 as int).len() && p1.take(b1 as int)[w] == x;
        assert(p.take(budget as int)[w + 1] == x);
        assert(rest[w] == x);
    }
    if a.contains_key(issi) && a[issi] < max {
        let out = seq![issi] + sub;
        assert(replay_batch(p, a, budget, max).2 == out);
        assert(out.no_duplicates()) by {
            assert forall|i: int, j: int| 0 <= i < out.len() && 0 <= j < out.len() && i != j implies out[i] != out[j] by {
                if i > 0 && j > 0 {
                    assert(out[i] == sub[i - 1] && out[j] == sub[j - 1]);
                } else if i == 0 {
                    assert(out[j] == sub[j - 1]);
                    assert(sub.contains(sub[j - 1]));
                } else {
                    assert(out[i] == sub[i - 1]);
                    assert(sub.contains(sub[i - 1]));
                }
            }
        }
        assert forall|x: u32| out.contains(x) implies p.take(budget as int).contains(x) by {
            let w = choose|w: int| 0 <= w < out.len() && out[w] == x;
            if w == 0 {
                assert(p.take(budget as int)[0] == x);
            } else {
                assert(sub[w - 1] == x);
                assert(sub.contains(x));
            }
        }
    }
}

/// Replay gives up in time: a batch commands only terminals below the limit and counts each
/// command, so no attempt count ever exceeds `max` when none did before.
pub proof fn lemma_replay_attempts_bounded(p: Seq<u32>, a: Map<u32, u32>, budget: nat, max: u32)
    requires
        forall|k: u32| #[trigger] a.contains_key(k) ==> a[k] <= max,
    ensures
        forall|k: u32| #[trigger] replay_batch(p, a, budget, max).1.contains_key(k) ==> replay_batch(p, a, budget, max).1[k]
            <= max,
        forall|k: u32| #[trigger] replay_batch(p, a, budget, max).2.contains(k) ==> a.contains_key(k) && a[k] < max,
    decreases budget,
{
    if budget == 0 || p.len() == 0 {
        return;
    }
    let issi = p[0];
    let rest = p.drop_first();
    let b1 = (budget - 1) as nat;
    if !a.contains_key(issi) {
        lemma_replay_attempts_bounded(rest, a, b1, max);
        assert(replay_batch(p, a, budget, max) == replay_batch(rest, a, b1, max));
    } else if a[issi] >= max {
        let a1 = a.remove(issi);
        assert forall|k: u32| #[trigger] a1.contains_key(k) implies a1[k] <= max by {
            assert(a.contains_key(k));
        }
        lemma_replay_attempts_bounded(rest, a1, b1, max);
        assert(replay_batch(p, a, budget, max) == replay_batch(rest, a1, b1, max));
        assert forall|k: u32| #[trigger] replay_batch(p, a, budget, max).2.contains(k) implies a.contains_key(k) && a[k]
            < max by {
            assert(a1.contains_key(k) && a1[k] < max);
        }
    } else {
        let a1 = a.insert(issi, (a[issi] + 1) as u32);
        assert forall|k: u32| #[trigger] a1.contains_key(k) implies a1[k] <= max by {
            if k != issi {
                assert(a.contains_key(k));
            }
        }
        lemma_replay_attempts_bounded(rest.push(issi), a1, b1, max);
        let sub = replay_batch(rest.push(issi), a1, b1, max).2;
        assert(replay_batch(p, a, budget, max).2 == seq![issi] + sub);
        assert(replay_batch(p, a, budget, max).1 == replay_batch(rest.push(issi), a1, b1, max).1);
        assert forall|k: u32| #[trigger] (seq![issi] + sub).contains(k) implies a.contains_key(k) && a[k] < max by {
            let w = choose|w: int| 0 <= w < (seq![issi] + sub).len() && (seq![issi] + sub)[w] == k;
            if w > 0 {
                assert(sub[w - 1] == k);
                assert(sub.contains(k));
                if k != issi {
                    assert(a1[k] == a[k]);
                }
            }
        }
    }
}

fn contains_u32(v: &Vec<u32>, x: u32) -> (r: bool)
    ensures
        r == v@.contains(x),
{
    let mut i: usize = 0;
    while i < v.len()
        invariant
            i <= v@.len(),
            forall|j: int| 0 <= j < i ==> v@[j] != x,
        decreases v@.len() - i,
    {
        if v[i] == x {
            assert(v@[i as int] == x);
            return true;
        }
        i = i + 1;
    }
    false
}

impl MmBs {
    /// Start restart recovery with `cache` and the terminal records `records` read from it, at
    /// `now_ms`. The records recovery admits among the first `max_cached_issis` (see
    /// `restored_records`) are restored as known but detached with their groups and
    /// energy-saving mode (the last record of an ISSI wins), queued for replay in order and
    /// counted with no command sent yet. Nothing is sent; the registry is untouched.
    pub fn init_recovery(&mut self, cache: RecoveryCache, records: Vec<TerminalRecord>, now_ms: u64)
        requires
            old(self).wf(),
        ensures
            final(self).wf(),
            final(self).recovery_enabled(),
            final(self).recovery_dirty() == cache.spec_dirty(),
            final(self).routing() == old(self).routing(),
            final(self).whitelist() == old(self).whitelist(),
            final(self).registry() == old(self).registry(),
            ({
                let kept = restored_records(
                    records@,
                    old(self).max_cached_issis(),
                    old(self).whitelist(),
                    old(self).recovery_allowlist(),
                );
                let issis = record_issis(kept);
                &&& final(self).recovery_pending() == old(self).recovery_pending() + issis
                &&& final(self).recovery_attempts().dom() == old(self).recovery_attempts().dom() + issis.to_set()
                &&& forall|k: u32| #[trigger]
                    final(self).recovery_attempts().contains_key(k) ==> final(self).recovery_attempts()[k] == if issis.contains(k) {
                        0
                    } else {
                        old(self).recovery_attempts()[k]
                    }
                &&& final(self).clients().dom() == old(self).clients().dom() + issis.to_set()
                &&& forall|k: u32| !issis.contains(k) && old(self).clients().contains_key(k) ==> #[trigger] final(self).clients()[k]
                    == old(self).clients()[k]
                &&& forall|i: int| 0 <= i < kept.len() && last_of_issi(kept, i) ==> restored_client(
                    #[trigger] final(self).clients()[kept[i].issi],
                    kept[i].issi,
                    kept[i].groups@.to_set(),
                    record_mode(kept[i].energy_saving_mode),
                    now_ms,
                )
            }),
    {
        let ghost s0 = *self;
        let ghost recs = records@;
        let ghost wl = self.whitelist();
        let ghost al = self.recovery_allowlist();
        let n: usize = if records.len() > self.config.recovery.max_cached_issis as usize {
            self.config.recovery.max_cached_issis as usize
        } else {
            records.len()
        };
        let ghost capped = recs.take(n as int);
        assert(capped == if recs.len() > s0.max_cached_issis() { recs.take(s0.max_cached_issis() as int) } else { recs });
        let mut i: usize = 0;
        while i < n
            invariant
                i <= n <= recs.len(),
                records@ == recs,
                capped == recs.take(n as int),
                self.wf(),
                self.whitelist() == wl,
                self.recovery_allowlist() == al,
                self.routing() == s0.routing(),
                self.registry() == s0.registry(),
                self.recovery == s0.recovery,
                ({
                    let kept = recs.take(i as int).filter(|r: TerminalRecord| recovery_admits(wl, al, r.issi));
                    let issis = record_issis(kept);
                    &&& self.recovery_pending() == s0.recovery_pending() + issis
                    &&& self.recovery_attempts().dom() == s0.recovery_attempts().dom() + issis.to_set()
                    &&& forall|k: u32| #[trigger]
                        self.recovery_attempts().contains_key(k) ==> self.recovery_attempts()[k] == if issis.contains(k) {
                            0
                        } else {
                            s0.recovery_attempts()[k]
                        }
                    &&& self.clients().dom() == s0.clients().dom() + issis.to_set()
                    &&& forall|k: u32| !issis.contains(k) && s0.clients().contains_key(k) ==> #[trigger] self.clients()[k]
                        == s0.clients()[k]
                    &&& forall|j: int| 0 <= j < kept.len() && last_of_issi(kept, j) ==> restored_client(
                        #[trigger] self.clients()[kept[j].issi],
                        kept[j].issi,
                        kept[j].groups@.to_set(),
                        record_mode(kept[j].energy_saving_mode),
                        now_ms,
                    )
                }),
            decreases n - i,
        {
            let ghost kept0 = recs.take(i as int).filter(|r: TerminalRecord| recovery_admits(wl, al, r.issi));
            let ghost st = *self;
            let rec = &records[i];
            let admitted = self.issi_allowed(rec.issi) && (self.config.recovery.issi_allowlist.len() == 0 || contains_u32(
                &self.config.recovery.issi_allowlist,
                rec.issi,
            ));
            proof {
                reveal_with_fuel(Seq::filter, 1);
                assert(recs.take(i + 1).drop_last() == recs.take(i as int));
                assert(recs.take(i + 1).last() == *rec);
            }
            if admitted {
                let esm = match energy_saving_mode_from_raw(rec.energy_saving_mode as u64) {
                    Some(m) => m,
                    None => EnergySavingMode::StayAlive,
                };
                self.client_mgr.restore_client(rec.issi, &rec.groups, esm, now_ms);
                self.recovery_pending.push(rec.issi);
                self.recovery_attempts.insert(rec.issi, 0);
                proof {
                    let kept1 = kept0.push(*rec);
                    assert(recs.take(i + 1).filter(|r: TerminalRecord| recovery_admits(wl, al, r.issi)) == kept1);
                    assert(record_issis(kept1) =~= record_issis(kept0).push(rec.issi));
                    record_issis(kept0).lemma_push_to_set_commute(rec.issi);
                    assert(self.recovery_pending() =~= s0.recovery_pending() + record_issis(kept1));
                    assert(self.recovery_attempts().dom() =~= s0.recovery_attempts().dom() + record_issis(kept1).to_set());
                    assert(self.clients().dom() =~= s0.clients().dom() + record_issis(kept1).to_set());
                    assert forall|j: int| 0 <= j < kept1.len() && last_of_issi(kept1, j) implies restored_client(
                        #[trigger] self.clients()[kept1[j].issi],
                        kept1[j].issi,
                        kept1[j].groups@.to_set(),
                        record_mode(kept1[j].energy_saving_mode),
                        now_ms,
                    ) by {
                        if j < kept0.len() {
                            assert(kept1[kept0.len() as int] == *rec);
                            assert(kept1[j] == kept0[j]);
                            assert forall|m: int| j < m < kept0.len() implies #[trigger] kept0[m].issi != kept0[j].issi by {
                                assert(kept1[m] == kept0[m]);
                            }
                            assert(last_of_issi(kept0, j));
                            assert(record_issis(kept0)[j] == kept0[j].issi);
                            assert(kept0[j].issi != rec.issi);
                            assert(st.clients().contains_key(kept0[j].issi));
                        }
                    }
                    assert forall|k: u32| #[trigger] self.recovery_attempts().contains_key(k) implies self.recovery_attempts()[k]
                        == if record_issis(kept1).contains(k) {
                        0
                    } else {
                        s0.recovery_attempts()[k]
                    } by {
                        if k != rec.issi {
                            if record_issis(kept1).contains(k) {
                                let w = choose|w: int| 0 <= w < record_issis(kept1).len() && record_issis(kept1)[w] == k;
                                assert(record_issis(kept0)[w] == k);
                            }
                            if record_issis(kept0).contains(k) {
                                let w = choose|w: int| 0 <= w < record_issis(kept0).len() && record_issis(kept0)[w] == k;
                                assert(record_issis(kept1)[w] == k);
                            }
                        } else {
                            assert(record_issis(kept1)[kept0.len() as int] == k);
                        }
                    }
                    assert forall|k: u32| !record_issis(kept1).contains(k) && s0.clients().contains_key(k) implies #[trigger] self.clients()[k]
                        == s0.clients()[k] by {
                        if record_issis(kept0).contains(k) {
                            let w = choose|w: int| 0 <= w < record_issis(kept0).len() && record_issis(kept0)[w] == k;
                            assert(record_issis(kept1)[w] == k);
                        }
                        assert(record_issis(kept1)[kept0.len() as int] == rec.issi);
                    }
                }
            } else {
                proof {
                    assert(recs.take(i + 1).filter(|r: TerminalRecord| recovery_admits(wl, al, r.issi)) == kept0);
                }
            }
            i = i + 1;
        }
        assert(recs.take(n as int) == capped);
        self.recovery = Some(cache);
    }

    /// One replay batch at monotonic frame index `frame`: with recovery on, terminals pending
    /// and no batch sent in this frame yet, up to `replay_per_frame` terminals (never more than
    /// are pending, so none is commanded twice in one frame) are worked through (see
    /// `replay_batch`), each one commanded getting D-LOCATION UPDATE COMMAND addressed by ISSI
    /// (handle 0). Otherwise nothing changes.
    pub fn drive_recovery_replay(&mut self, queue: &mut Vec<MmAction>, frame: i64)
        requires
            old(self).wf(),
        ensures
            final(self).wf(),
            final(self).clients() == old(self).clients(),
            final(self).registry() == old(self).registry(),
            old(self).same_config(*final(self)),
            final(self).recovery_dirty() == old(self).recovery_dirty(),
            final(self).whitelist() == old(self).whitelist(),
            !old(self).recovery_enabled() || old(self).recovery_pending().len() == 0 || old(self).last_replay_frame()
                == Some(frame) ==> final(self).recovery_pending() == old(self).recovery_pending()
                && final(self).recovery_attempts() == old(self).recovery_attempts()
                && final(self).last_replay_frame() == old(self).last_replay_frame()
                && views(final(queue)@) == views(old(queue)@),
            old(self).recovery_enabled() && old(self).recovery_pending().len() > 0 && old(self).last_replay_frame()
                != Some(frame) ==> {
                let budget = if old(self).replay_per_frame() < old(self).recovery_pending().len() {
                    old(self).replay_per_frame() as nat
                } else {
                    old(self).recovery_pending().len()
                };
                let r = replay_batch(old(self).recovery_pending(), old(self).recovery_attempts(), budget, old(self).max_replay_attempts());
                &&& final(self).last_replay_frame() == Some(frame)
                &&& final(self).recovery_pending() == r.0
                &&& final(self).recovery_attempts() == r.1
                &&& views(final(queue)@) == views(old(queue)@) + r.2.map_values(
                    |issi: u32| MmActionView::LocationUpdateCommand { issi, handle: 0 },
                )
            },
    {
        if self.recovery.is_none() || self.recovery_pending.len() == 0 {
            return;
        }
        match self.recovery_last_frame {
            Some(f) => {
                if f == frame {
                    return;
                }
            },
            None => {},
        }
        self.recovery_last_frame = Some(frame);
        let ghost s0 = *self;
        let ghost p0 = self.recovery_pending@;
        let ghost a0 = self.recovery_attempts@;
        let ghost q0 = queue@;
        let max = self.config.recovery.max_replay_attempts;
        let per_frame = self.config.recovery.replay_per_frame as usize;
        let budget: usize = if per_frame < self.recovery_pending.len() { per_frame } else { self.recovery_pending.len() };
        let ghost fin = replay_batch(p0, a0, budget as nat, max);
        let mut processed: usize = 0;
        while processed < budget
            invariant
                processed <= budget,
                budget - processed <= self.recovery_pending@.len(),
                max == self.config.recovery.max_replay_attempts,
                self.wf(),
                self.client_mgr == s0.client_mgr,
                self.registry == s0.registry,
                self.recovery == s0.recovery,
                self.config == s0.config,
                self.whitelist_override == s0.whitelist_override,
                self.recovery_last_frame == Some(frame),
                ({
                    let r = replay_batch(self.recovery_pending@, self.recovery_attempts@, (budget - processed) as nat, max);
                    &&& r.0 == fin.0
                    &&& r.1 == fin.1
                    &&& views(q0) + fin.2.map_values(|issi: u32| MmActionView::LocationUpdateCommand { issi, handle: 0 })
                        == views(queue@) + r.2.map_values(|issi: u32| MmActionView::LocationUpdateCommand { issi, handle: 0 })
                }),
            decreases budget - processed,
        {
            let ghost p = self.recovery_pending@;
            let ghost a = self.recovery_attempts@;
            let ghost qb = queue@;
            let issi = self.recovery_pending.remove(0);
            proof {
                assert(self.recovery_pending@ == p.drop_first());
            }
            processed = processed + 1;
            match self.recovery_attempts.get(&issi) {
                None => {},
                Some(n) => {
                    let attempts = *n;
                    if attempts >= max {
                        self.recovery_attempts.remove(&issi);
                        proof {
                            assert(self.recovery_attempts@ == a.remove(issi));
                        }
                    } else {
                        queue.push(MmAction::LocationUpdateCommand { issi, handle: 0 });
                        self.recovery_attempts.insert(issi, attempts + 1);
                        self.recovery_pending.push(issi);
                        proof {
                            let rr = replay_batch(p.drop_first().push(issi), a.insert(issi, (a[issi] + 1) as u32), (budget - processed) as nat, max);
                            let f = |x: u32| MmActionView::LocationUpdateCommand { issi: x, handle: 0 };
                            assert((seq![issi] + rr.2).map_values(f) =~= seq![f(issi)] + rr.2.map_values(f));
                            assert(views(queue@) =~= views(qb).push(f(issi)));
                            assert(views(queue@) + rr.2.map_values(f) =~= views(qb) + (seq![issi] + rr.2).map_values(f));
                        }
                    }
                },
            }
        }
        proof {
            assert(replay_batch(self.recovery_pending@, self.recovery_attempts@, 0, max).2.len() == 0);
            assert(views(queue@) + Seq::<u32>::empty().map_values(
                |issi: u32| MmActionView::LocationUpdateCommand { issi, handle: 0 },
            ) =~= views(queue@));
        }
    }
}


/// D-LOCATION UPDATE COMMANDs addressed by ISSI (handle 0) to `ks`, in order.
pub open spec fn command_views(ks: Seq<u32>) -> Seq<MmActionView> {
    ks.map_values(|issi: u32| MmActionView::LocationUpdateCommand { issi, handle: 0 })
}

/// Most entries the reactive-recovery cooldown map holds before lapsed ones are pruned.
pub const REACTIVE_RECOVERY_COOLDOWN_CAP: usize = 4096;

/// A terminal commanded at `last` (ms) is still in its cooldown of `secs` seconds at `now`
/// (no time has passed when `now` is earlier).
pub open spec fn in_cooldown(last: u64, now: u64, secs: u64) -> bool {
    (if now >= last { now - last } else { 0 }) / 1000 < secs
}

/// The cooldown entries of `m` still running at `now`.
pub open spec fn running_cooldowns(m: Map<u32, u64>, now: u64, secs: u64) -> Map<u32, u64> {
    m.restrict(m.dom().filter(|k: u32| in_cooldown(m[k], now, secs)))
}

impl MmBs {
    /// Reactive recovery keys `issi`, heard on the uplink at `now_ms`: it is unknown to MM, not
    /// being replayed to, reactive recovery is on, recovery admits it (see
    /// `recovery_admits`), and it is not in its cooldown.
    pub open spec fn reactive_keys(self, issi: u32, now_ms: u64) -> bool {
        &&& !self.clients().contains_key(issi)
        &&& !self.recovery_attempts().contains_key(issi)
        &&& self.reactive_enabled()
        &&& recovery_admits(self.whitelist(), self.recovery_allowlist(), issi)
        &&& !(self.reactive_cooldown().contains_key(issi) && in_cooldown(
            self.reactive_cooldown()[issi],
            now_ms,
            self.reactive_cooldown_secs(),
        ))
    }

    /// Reactive recovery is rate limited: once `issi` has been keyed at `now_ms` (its cooldown
    /// restarted there), it is not keyed again while the cooldown runs.
    pub proof fn lemma_reactive_recovery_rate_limited(self, issi: u32, now_ms: u64, later_ms: u64)
        requires
            self.reactive_cooldown().contains_key(issi),
            self.reactive_cooldown()[issi] == now_ms,
            in_cooldown(now_ms, later_ms, self.reactive_cooldown_secs()),
        ensures
            !self.reactive_keys(issi, later_ms),
    {
    }

    /// `issi` was heard on the uplink at `now_ms`. A terminal reactive recovery keys (see
    /// `reactive_keys`) is sent D-LOCATION UPDATE COMMAND addressed by ISSI (handle 0) and its
    /// cooldown restarts, the lapsed cooldowns being pruned first when the map is full.
    /// Otherwise nothing changes.
    pub fn maybe_reactive_recovery(&mut self, queue: &mut Vec<MmAction>, issi: u32, now_ms: u64)
        requires
            old(self).wf(),
        ensures
            final(self).wf(),
            final(self).clients() == old(self).clients(),
            final(self).registry() == old(self).registry(),
            old(self).same_config(*final(self)),
            final(self).recovery_dirty() == old(self).recovery_dirty(),
            final(self).recovery_pending() == old(self).recovery_pending(),
            final(self).recovery_attempts() == old(self).recovery_attempts(),
            final(self).whitelist() == old(self).whitelist(),
            !old(self).reactive_keys(issi, now_ms) ==> final(self).reactive_cooldown() == old(self).reactive_cooldown()
                && views(final(queue)@) == views(old(queue)@),
            old(self).reactive_keys(issi, now_ms) ==> {
                &&& final(self).reactive_cooldown() == if old(self).reactive_cooldown().len()
                    >= REACTIVE_RECOVERY_COOLDOWN_CAP {
                    running_cooldowns(old(self).reactive_cooldown(), now_ms, old(self).reactive_cooldown_secs()).insert(
                        issi,
                        now_ms,
                    )
                } else {
                    old(self).reactive_cooldown().insert(issi, now_ms)
                }
                &&& views(final(queue)@) == views(old(queue)@).push(MmActionView::LocationUpdateCommand { issi, handle: 0 })
            },
    {
        if self.client_mgr.client_is_known(issi) {
            return;
        }
        if self.recovery_attempts.contains_key(&issi) {
            return;
        }
        if !self.config.recovery.reactive_enabled {
            return;
        }
        let permitted = self.issi_allowed(issi) && (self.config.recovery.issi_allowlist.len() == 0 || contains_u32(
            &self.config.recovery.issi_allowlist,
            issi,
        ));
        if !permitted {
            return;
        }
        let secs = self.config.recovery.reactive_cooldown_secs;
        match self.reactive_cooldown.get(&issi) {
            Some(last) => {
                let elapsed = if now_ms >= *last { now_ms - *last } else { 0 };
                if elapsed / 1000 < secs {
                    return;
                }
            },
            None => {},
        }
        let ghost m0 = self.reactive_cooldown@;
        let ghost s0 = *self;
        if self.reactive_cooldown.len() >= REACTIVE_RECOVERY_COOLDOWN_CAP {
            let keys = map_keys(&self.reactive_cooldown);
            let mut i: usize = 0;
            while i < keys.len()
                invariant
                    i <= keys@.len(),
                    keys@.to_set() == m0.dom(),
                    keys@.no_duplicates(),
                    self.client_mgr == s0.client_mgr,
                    self.registry == s0.registry,
                    self.recovery == s0.recovery,
                    self.config == s0.config,
                    self.whitelist_override == s0.whitelist_override,
                    self.recovery_pending == s0.recovery_pending,
                    self.recovery_attempts == s0.recovery_attempts,
                    self.reactive_cooldown@.dom() =~= m0.dom().filter(
                        |k: u32| !keys@.take(i as int).contains(k) || in_cooldown(m0[k], now_ms, secs),
                    ),
                    forall|k: u32| #[trigger] self.reactive_cooldown@.contains_key(k) ==> self.reactive_cooldown@[k] == m0[k],
                decreases keys@.len() - i,
            {
                let k = keys[i];
                proof {
                    assert(keys@.to_set().contains(k));
                }
                let t = *self.reactive_cooldown.get(&k).unwrap();
                let elapsed = if now_ms >= t { now_ms - t } else { 0 };
                if !(elapsed / 1000 < secs) {
                    self.reactive_cooldown.remove(&k);
                }
                proof {
                    assert(keys@.take(i + 1) == keys@.take(i as int).push(k));
                    assert forall|x: u32| m0.dom().contains(x) && x != k implies (keys@.take(i + 1).contains(x) <==> keys@.take(
                        i as int,
                    ).contains(x)) by {
                        if keys@.take(i + 1).contains(x) {
                            let w = choose|w: int| 0 <= w < keys@.take(i + 1).len() && #[trigger] keys@.take(i + 1)[w] == x;
                            assert(keys@.take(i as int)[w] == x);
                        }
                    }
                    assert(keys@.take(i + 1).contains(k)) by {
                        assert(keys@.take(i + 1)[i as int] == k);
                    }
                }
                i = i + 1;
            }
            proof {
                assert(keys@.take(keys@.len() as int) == keys@);
                assert(self.reactive_cooldown@ =~= running_cooldowns(m0, now_ms, secs));
            }
        }
        self.reactive_cooldown.insert(issi, now_ms);
        let ghost q0 = queue@;
        queue.push(MmAction::LocationUpdateCommand { issi, handle: 0 });
        proof {
            assert(views(queue@) =~= views(q0).push(MmActionView::LocationUpdateCommand { issi, handle: 0 }));
        }
    }
}


impl MmBs {
    /// U-TEI PROVIDE from `issi` carrying `tei`: stored for a known MS; nothing else changes.
    pub fn rx_u_tei_provide(&mut self, issi: u32, tei: u64)
        requires
            old(self).wf(),
        ensures
            final(self).wf(),
            final(self).clients() == if old(self).clients().contains_key(issi) {
                old(self).clients().insert(issi, MmClientProperties { tei: Some(tei), ..old(self).clients()[issi] })
            } else {
                old(self).clients()
            },
            final(self).registry() == old(self).registry(),
            old(self).same_config(*final(self)),
            final(self).recovery_dirty() == old(self).recovery_dirty(),
            final(self).recovery_pending() == old(self).recovery_pending(),
            final(self).recovery_attempts() == old(self).recovery_attempts(),
    {
        let _ = self.client_mgr.set_client_tei(issi, tei);
    }

    /// The Brew backhaul reconnected: every known MS is sent D-LOCATION UPDATE COMMAND
    /// addressed by ISSI (handle 0), once each, so it registers and affiliates again.
    pub fn rx_brew_reconnected(&self, queue: &mut Vec<MmAction>)
        ensures
            exists|ks: Seq<u32>|
                #[trigger] key_order(ks, self.clients()) && views(final(queue)@) == views(old(queue)@) + command_views(ks),
    {
        let issis = self.client_mgr.all_known_issis();
        let ghost q0 = queue@;
        let mut i: usize = 0;
        while i < issis.len()
            invariant
                i <= issis@.len(),
                views(queue@) == views(q0) + command_views(issis@.take(i as int)),
            decreases issis@.len() - i,
        {
            let ghost qb = queue@;
            let issi = issis[i];
            queue.push(MmAction::LocationUpdateCommand { issi, handle: 0 });
            proof {
                assert(views(queue@) =~= views(qb).push(MmActionView::LocationUpdateCommand { issi, handle: 0 }));
                assert(issis@.take(i + 1) == issis@.take(i as int).push(issi));
                assert(command_views(issis@.take(i + 1)) =~= command_views(issis@.take(i as int)).push(
                    MmActionView::LocationUpdateCommand { issi, handle: 0 },
                ));
                assert(views(queue@) =~= views(q0) + command_views(issis@.take(i + 1)));
            }
            i = i + 1;
        }
        assert(issis@.take(issis@.len() as int) == issis@);
        assert(key_order(issis@, self.clients()));
    }
}


/// Class of usage of a group assigned by DGNA, as for a group the MS attached itself.
pub const DGNA_CLASS_OF_USAGE: u8 = 4;

/// The group element DGNA sends for `gssi`: an attachment for good (lifetime 0) with the DGNA
/// class of usage when `attach`, else a detachment of default type 0.
pub open spec fn dgna_group(gssi: u32, attach: bool) -> GroupIdentityDownlink {
    GroupIdentityDownlink {
        attachment: if attach {
            Some(GroupIdentityAttachment { lifetime: 0, class_of_usage: DGNA_CLASS_OF_USAGE })
        } else {
            None
        },
        detachment_uplink: if attach { None } else { Some(0u8) },
        gssi: Some(gssi),
    }
}

impl MmBs {
    /// Dynamic group number assignment: attach (`attach`) or detach group `gssi` on MS `issi`
    /// at the operator's request. An MS unknown here is left alone (false). Otherwise its
    /// group list and registry entry follow, the (de)affiliation is handed on, the MS is sent
    /// the group (see `dgna_group`), the recovery cache is marked dirty, and true is returned,
    /// whether or not the affiliation changed.
    pub fn do_dgna(&mut self, queue: &mut Vec<MmAction>, issi: u32, gssi: u32, attach: bool) -> (r: bool)
        requires
            old(self).wf(),
        ensures
            final(self).wf(),
            old(self).same_config(*final(self)),
            final(self).whitelist() == old(self).whitelist(),
            final(self).recovery_pending() == old(self).recovery_pending(),
            final(self).recovery_attempts() == old(self).recovery_attempts(),
            r == old(self).clients().contains_key(issi),
            !r ==> final(self).clients() == old(self).clients() && final(self).registry() == old(self).registry()
                && final(self).recovery_dirty() == old(self).recovery_dirty() && views(final(queue)@) == views(
                old(queue)@,
            ),
            r ==> {
                let c = old(self).clients()[issi];
                let reg = old(self).registry();
                &&& final(self).clients().dom() == old(self).clients().dom()
                &&& forall|k: u32| k != issi && old(self).clients().contains_key(k) ==> #[trigger] final(self).clients()[k]
                    == old(self).clients()[k]
                &&& final(self).clients()[issi] == (MmClientProperties { groups: final(self).clients()[issi].groups, ..c })
                &&& final(self).clients()[issi].groups@ == if attach { c.groups@.insert(gssi) } else { c.groups@.remove(gssi) }
                &&& final(self).registry() == if attach {
                    reg.insert(issi, entry_with(reg, issi, set![gssi]))
                } else {
                    match entry_of(reg, issi) {
                        Some(e) => reg.insert(issi, e.remove(gssi)),
                        None => reg,
                    }
                }
                &&& final(self).recovery_dirty() == final(self).recovery_enabled()
                &&& views(final(queue)@) == views(old(queue)@) + update_views(
                    old(self).routing(),
                    issi,
                    set![gssi],
                    if attach { SubscriberAction::Affiliate } else { SubscriberAction::Deaffiliate },
                ) + seq![MmActionView::AttachDetachCommand { issi, group: dgna_group(gssi, attach) }]
            },
    {
        if !self.client_mgr.client_is_known(issi) {
            return false;
        }
        let ghost s0 = *self;
        match self.client_mgr.client_group_attach(issi, gssi, attach) {
            Ok(_) => {},
            Err(_) => {
                return false;
            },
        }
        let one = vec![gssi];
        proof {
            assert(one@.to_set() =~= set![gssi]) by {
                assert(one@ == seq![gssi]);
            }
        }
        if attach {
            self.registry_affiliate(issi, gssi);
            self.emit_subscriber_update(queue, issi, one, SubscriberAction::Affiliate);
            proof {
                assert(entry_with(s0.registry(), issi, set![gssi]) =~= match entry_of(s0.registry(), issi) {
                    Some(e) => e,
                    None => Set::<u32>::empty(),
                }.insert(gssi));
            }
        } else {
            self.registry_deaffiliate(issi, gssi);
            self.emit_subscriber_update(queue, issi, one, SubscriberAction::Deaffiliate);
        }
        let group = GroupIdentityDownlink {
            attachment: if attach {
                Some(GroupIdentityAttachment { lifetime: 0, class_of_usage: DGNA_CLASS_OF_USAGE })
            } else {
                None
            },
            detachment_uplink: if attach { None } else { Some(0u8) },
            gssi: Some(gssi),
        };
        let ghost q1 = queue@;
        queue.push(MmAction::AttachDetachCommand { issi, group });
        proof {
            assert(views(queue@) =~= views(q1).push(MmActionView::AttachDetachCommand { issi, group }));
        }
        self.recovery_mark_dirty();
        true
    }
}


/// `r` is what restart recovery persists of client `issi` of `m`: its ISSI, its groups and the
/// raw value of its energy-saving mode.
pub open spec fn record_matches(r: TerminalRecord, issi: u32, m: Map<u32, MmClientProperties>) -> bool {
    &&& r.issi == issi
    &&& r.groups@.to_set() == m[issi].groups@
    &&& r.energy_saving_mode == spec_energy_saving_mode_to_raw(m[issi].energy_saving_mode)
}

/// `rs` holds one record per client of `m` (in some order of the clients).
pub open spec fn records_match(rs: Seq<TerminalRecord>, m: Map<u32, MmClientProperties>) -> bool {
    exists|ks: Seq<u32>|
        #[trigger] key_order(ks, m) && rs.len() == ks.len() && forall|i: int|
            0 <= i < ks.len() ==> #[trigger] record_matches(rs[i], ks[i], m)
}

/// The records restart recovery persists for the clients of `cm`.
fn records_of(cm: &MmClientMgr) -> (r: Vec<TerminalRecord>)
    ensures
        records_match(r@, cm.clients()),
{
    let snap = cm.snapshot_for_recovery();
    let ghost ks = choose|ks: Seq<u32>|
        #[trigger] key_order(ks, cm.clients()) && snap@.len() == ks.len() && forall|i: int|
            0 <= i < ks.len() ==> #[trigger] snapshot_entry(snap@[i], ks[i], cm.clients());
    let mut out: Vec<TerminalRecord> = Vec::new();
    let mut i: usize = 0;
    while i < snap.len()
        invariant
            i <= snap@.len(),
            snap@.len() == ks.len(),
            forall|j: int| 0 <= j < ks.len() ==> #[trigger] snapshot_entry(snap@[j], ks[j], cm.clients()),
            out@.len() == i,
            forall|j: int| 0 <= j < i ==> #[trigger] record_matches(out@[j], ks[j], cm.clients()),
        decreases snap@.len() - i,
    {
        let e = &snap[i];
        let ghost o0 = out@;
        assert(snapshot_entry(snap@[i as int], ks[i as int], cm.clients()));
        out.push(TerminalRecord { issi: e.0, groups: e.1.clone(), energy_saving_mode: energy_saving_mode_to_raw(e.2) });
        assert forall|j: int| 0 <= j < i + 1 implies #[trigger] record_matches(out@[j], ks[j], cm.clients()) by {
            if j < i {
                assert(out@[j] == o0[j]);
                assert(record_matches(o0[j], ks[j], cm.clients()));
            } else {
                assert(out@[j].groups@ == snap@[j].1@);
            }
        }
        i = i + 1;
    }
    assert(key_order(ks, cm.clients()));
    out
}

impl MmBs {
    /// The cache file to write now, if restart recovery is on, its cache is dirty and the
    /// debounce window has elapsed (see `RecoveryCache::maybe_flush`): the current schema
    /// version and one record per known MS. Nothing changes; the caller writes the file and
    /// reports the outcome with `recovery_flush_finished`.
    pub fn recovery_maybe_flush(&mut self) -> (r: Option<CacheFile>)
        requires
            old(self).wf(),
        ensures
            *final(self) == *old(self),
            !old(self).recovery_enabled() || !old(self).recovery_dirty() ==> r is None,
            old(self).recovery_enabled() && old(self).recovery_dirty() && old(self).recovery_debounce_ms() == 0
                ==> r is Some,
            r matches Some(cf) ==> cf.version == CACHE_VERSION && records_match(cf.terminals@, old(self).clients()),
    {
        let mut cache = match self.recovery.take() {
            Some(c) => c,
            None => return None,
        };
        let cm = &self.client_mgr;
        let snapshot = (|| -> (v: Vec<TerminalRecord>)
            ensures
                records_match(v@, cm.clients()),
            { records_of(cm) });
        let r = cache.maybe_flush(snapshot);
        self.recovery = Some(cache);
        r
    }

    /// The outcome of writing the cache file: on success the cache is clean; either way the
    /// debounce window restarts. Without restart recovery nothing changes.
    pub fn recovery_flush_finished(&mut self, written: bool)
        requires
            old(self).wf(),
        ensures
            final(self).wf(),
            final(self).clients() == old(self).clients(),
            final(self).registry() == old(self).registry(),
            old(self).same_config(*final(self)),
            final(self).recovery_pending() == old(self).recovery_pending(),
            final(self).recovery_attempts() == old(self).recovery_attempts(),
            final(self).recovery_dirty() == (old(self).recovery_dirty() && !written),
    {
        let mut cache = match self.recovery.take() {
            Some(c) => c,
            None => return,
        };
        cache.flush_finished(written);
        self.recovery = Some(cache);
    }

    /// MM knows `issi` (it registered, or was restored by restart recovery).
    pub fn client_is_known(&self, issi: u32) -> (r: bool)
        ensures
            r == self.clients().contains_key(issi),
    {
        self.client_mgr.client_is_known(issi)
    }

    /// The path of the restart-recovery cache file, when recovery is on.
    pub fn recovery_path(&self) -> (r: Option<String>)
        ensures
            r is Some <==> self.recovery_enabled(),
    {
        match &self.recovery {
            Some(c) => Some(c.path().clone()),
            None => None,
        }
    }
}

} // verus!
