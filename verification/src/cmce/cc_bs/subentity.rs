//! The call-control sub-entity: subscriber affiliations and the listener count of each
//! group, group-call floor control, network (Brew) call hand-over and call release. Every
//! decision is a state change plus a list of `CcAction`s for the caller to carry out.
use vstd::prelude::*;
use std::collections::{HashMap, HashSet};
use crate::collections::{map_keys, set_elements};
use crate::tdma::{Direction, SsiType, TdmaTime, TetraAddress};
use crate::cmce::components::circuit_mgr::{
    CircuitErr, CircuitMgr, CircuitModeType, CmceCircuit, CommunicationType, circuit_closed_on_ts, made_circuit,
};
use crate::cmce::type3::Type3FieldWide;
use crate::cmce::pdu_type::{CmcePduTypeUl, spec_pdu_type_ul};
use crate::cmce::cc_bs::call::{
    ActiveCall, BasicService, CallOrigin, CallTimeout, CallTimeoutSetupPhase, GroupCallState, IndividualCall, IndividualCallState,
    NetworkCallParams, TxDemandQueueResult, spec_group_state, spec_is_alerted,
};
use crate::net_brew::brew_routable::{RoutingConfig, is_brew_gssi_routable, spec_gssi_routable};

pub mod setup;
pub mod p2p;
pub mod p2p_brew;
pub mod network_circuit;

use network_circuit::NetworkCircuitCall;
pub mod uplink;

verus! {

broadcast use vstd::std_specs::hash::group_hash_axioms;

/// The part of the stack configuration that call control reads.
pub struct CcConfig {
    pub routing: RoutingConfig,
    /// Maximum call duration in seconds; 0 means no limit.
    pub call_timeout_secs: u32,
    /// The Brew backhaul is connected (runtime state shared with the Brew entity).
    pub network_connected: bool,
}

/// What an MM subscriber update asks of call control.
#[derive(Debug, Clone, Copy, PartialEq, Eq, Structural)]
pub enum SubscriberAction {
    Register,
    Deregister,
    Affiliate,
    Deaffiliate,
}

/// A subscriber update from MM: registration state or group affiliations of one ISSI.
pub struct MmSubscriberUpdate {
    pub issi: u32,
    pub groups: Vec<u32>,
    pub action: SubscriberAction,
}

/// Disconnect cause (ETSI EN 300 392-2 clause 14.8.17).
#[derive(Debug, Clone, Copy, PartialEq, Eq, Structural)]
pub enum DisconnectCause {
    CauseNotDefined,
    UserRequestedDisconnection,
    CalledPartyBusy,
    CalledPartyNotReachable,
    CalledPartyDoesNotSupportEncryption,
    CongestionInInfrastructure,
    NotAllowedTrafficCase,
    IncompatibleTrafficCase,
    RequestedServiceNotAvailable,
    PreEmptiveUseOfResource,
    InvalidCallIdentifier,
    CallRejectedByCalledParty,
    NoIdleCcEntity,
    ExpiryOfTimer,
    SwmiRequestedDisconnection,
    AcknowledgedServiceNotCompleted,
    UnknownTetraIdentity,
    SsSpecificDisconnection,
    UnknownExternalSubscriberIdentity,
    CallRestorationOfOtherUserFailed,
    CalledPartyRequiresEncryption,
    ConcurrentSetUpNotSupported,
    CalledPartyIsUnderTheSameDmGateOfTheSwmi,
}

/// Transmission grant (ETSI EN 300 392-2 clause 14.8.42).
#[derive(Debug, Clone, Copy, PartialEq, Eq, Structural)]
pub enum TransmissionGrant {
    Granted,
    NotGranted,
    RequestQueued,
    GrantedToOtherUser,
}

/// Direction a leg may use on its traffic channel.
#[derive(Debug, Clone, Copy, PartialEq, Eq, Structural)]
pub enum UlDlAssignment {
    Ul,
    Dl,
    Both,
}

/// Entity a call-control notification goes to.
#[derive(Debug, Clone, Copy, PartialEq, Eq, Structural)]
pub enum ControlDest {
    Umac,
    Brew,
}

/// How an individually addressed PDU reaches its MS.
#[derive(Debug, Clone, Copy, PartialEq, Eq, Structural)]
pub enum PduRoute {
    /// Stolen from the traffic channel on `ts`, with the leg's usage marker.
    Stolen { ts: u8, usage: u8 },
    /// Over the MS's uplink link context.
    Link { handle: u32, link_id: u32, endpoint_id: u32 },
    /// On the MCCH, with no link context.
    Mcch,
}

/// Work that call control hands to the rest of the stack.
#[derive(Debug, Clone, Copy, PartialEq, Eq, Structural)]
pub enum CcAction {
    /// D-TX GRANTED to one MS, stolen from the traffic channel on `ts`.
    DTxGranted { call_id: u16, to: TetraAddress, ts: u8, grant: TransmissionGrant, transmitting_issi: Option<u32> },
    /// D-TX GRANTED (granted to another user) to the group, stolen from the traffic channel.
    DTxGrantedGroup { call_id: u16, transmitting_issi: u32, to: TetraAddress, ts: u8 },
    /// D-TX CEASED to the group, stolen from the traffic channel.
    DTxCeasedGroup { call_id: u16, to: TetraAddress, ts: u8 },
    /// D-RELEASE; stolen from the traffic channel on `ts` when given, else sent on the MCCH.
    DRelease { call_id: u16, to: TetraAddress, cause: DisconnectCause, ts: Option<u8> },
    /// D-SETUP of a group call, with its channel allocation.
    DSetup { call_id: u16, to: TetraAddress, calling_issi: u32, usage: u8, ts: u8, call_timeout: CallTimeout },
    /// D-CONNECT of a group call.
    DConnect { call_id: u16, to: TetraAddress, call_timeout: CallTimeout },
    /// Ask UMAC to open a traffic circuit.
    CircuitOpen { circuit: CmceCircuit },
    /// Ask UMAC to close a traffic circuit.
    CircuitClose { dir: Direction, ts: u8 },
    FloorGranted { dest: ControlDest, call_id: u16, source_issi: u32, dest_gssi: u32, ts: u8 },
    FloorReleased { dest: ControlDest, call_id: u16, ts: u8 },
    CallEnded { dest: ControlDest, call_id: u16, ts: u8 },
    /// Tell Brew a network group call is over.
    NetworkCallEnd { brew_uuid: u128 },
    /// Tell Brew a network group call has its circuit.
    NetworkCallReady { brew_uuid: u128, call_id: u16, ts: u8, usage: u8 },
    /// Tell Brew an individual circuit is released.
    NetworkCircuitRelease { brew_uuid: u128, cause: DisconnectCause },
    /// Ask MM to deregister an MS.
    DeregisterSubscriber { issi: u32 },
    /// D-ALERT to the calling MS over its link.
    DAlert {
        call_id: u16,
        to: TetraAddress,
        handle: u32,
        link_id: u32,
        endpoint_id: u32,
        simplex_duplex: bool,
        setup_timeout: CallTimeoutSetupPhase,
    },
    /// Tell Brew the called party is alerting.
    NetworkCircuitAlert { brew_uuid: u128 },
    /// D-TX GRANTED to one leg of an individual call, stolen from its traffic channel, with its
    /// new channel assignment.
    DTxGrantedIndividual {
        call_id: u16,
        to: TetraAddress,
        ts: u8,
        usage: u8,
        assign: UlDlAssignment,
        grant: TransmissionGrant,
        transmitting_issi: u32,
    },
    /// D-TX CEASED to one leg of an individual call, with its new channel assignment.
    DTxCeasedIndividual { call_id: u16, to: TetraAddress, ts: u8, usage: u8, assign: UlDlAssignment },
    /// Dashboard telemetry: a group call ended.
    GroupCallEnded { call_id: u16 },
    /// D-DISCONNECT to the other party of an individual call.
    DDisconnect { call_id: u16, to: TetraAddress, cause: DisconnectCause, route: PduRoute },
    /// D-RELEASE to one MS over its uplink link context.
    DReleaseLink { call_id: u16, to: TetraAddress, cause: DisconnectCause, handle: u32, link_id: u32, endpoint_id: u32 },
    /// Ask UMAC to open the circuit of one leg of an individual call; `peer_ts` names the
    /// other leg's timeslot when the legs use two timeslots.
    IndividualCircuitOpen { circuit: CmceCircuit, peer_ts: Option<u8> },
    /// D-CONNECT to the calling MS of an individual call over its link context, with the
    /// channel allocation of its leg; sent once stolen from the traffic channel, once on the MCCH.
    DConnectIndividual {
        call_id: u16,
        to: TetraAddress,
        handle: u32,
        link_id: u32,
        endpoint_id: u32,
        call_timeout: CallTimeout,
        hook_method: bool,
        simplex_duplex: bool,
        grant: TransmissionGrant,
        usage: u8,
        ts: u8,
        stealing: bool,
    },
    /// D-CONNECT ACKNOWLEDGE (transmission granted) to the called MS over its link context,
    /// with the channel allocation of its leg; sent once stolen, once on the MCCH.
    DConnectAck {
        call_id: u16,
        to: TetraAddress,
        handle: u32,
        link_id: u32,
        endpoint_id: u32,
        call_timeout: CallTimeout,
        usage: u8,
        ts: u8,
        stealing: bool,
    },
    /// D-CALL-PROCEEDING to a calling MS over its link context.
    DCallProceeding {
        call_id: u16,
        to: TetraAddress,
        handle: u32,
        link_id: u32,
        endpoint_id: u32,
        setup_timeout: CallTimeoutSetupPhase,
        hook_method: bool,
        simplex_duplex: bool,
    },
    /// D-CONNECT (transmission granted, call ownership) to the calling MS of a group call over
    /// its link context, with the channel allocation of the call's circuit.
    DConnectCaller {
        call_id: u16,
        to: TetraAddress,
        handle: u32,
        link_id: u32,
        endpoint_id: u32,
        call_timeout: CallTimeout,
        hook_method: bool,
        simplex_duplex: bool,
        usage: u8,
        carrier_num: u16,
        ts: u8,
    },
    /// D-SETUP of a locally originated group call (transmission granted to another user), with
    /// its channel allocation; it is repeated while the call lasts.
    DSetupGroup {
        call_id: u16,
        to: TetraAddress,
        calling_issi: u32,
        call_timeout: CallTimeout,
        hook_method: bool,
        simplex_duplex: bool,
        service: BasicService,
        priority: u8,
        usage: u8,
        carrier_num: u16,
        ts: u8,
    },
    /// D-SETUP of an individual call to the called MS on the MCCH, with no channel allocation.
    DSetupIndividual {
        call_id: u16,
        to: TetraAddress,
        calling_issi: u32,
        call_timeout: CallTimeout,
        hook_method: bool,
        simplex_duplex: bool,
        service: BasicService,
        priority: u8,
        grant: TransmissionGrant,
    },
    /// Ask Brew to set up an individual call to a party behind it (NETWORK CIRCUIT SETUP
    /// REQUEST); `external_number` carries the dialled external number, if any.
    NetworkCircuitSetupRequest {
        brew_uuid: u128,
        source_issi: u32,
        destination: u32,
        external_number: Option<Type3FieldWide>,
        priority: u8,
        service: u8,
        mode: CircuitModeType,
        duplex: bool,
        method: bool,
        communication: CommunicationType,
        permission: bool,
        timeout: CallTimeout,
    },
    /// D-SETUP of an individual call from Brew to the called MS on the MCCH (hook signalling,
    /// transmission not granted), with the caller's external number when it has one.
    DSetupNetwork {
        call_id: u16,
        to: TetraAddress,
        calling_issi: u32,
        call_timeout: CallTimeout,
        simplex_duplex: bool,
        service: BasicService,
        priority: u8,
        external_number: Option<Type3FieldWide>,
    },
    /// Ask UMAC to open the circuit of a leg whose downlink media come from the network.
    NetworkCircuitOpen { circuit: CmceCircuit },
    /// D-CONNECT ACKNOWLEDGE (call time-out five minutes) to the called MS over its link
    /// context, with the grant and permission Brew gave and the channel allocation of its leg.
    DConnectAckNetwork {
        call_id: u16,
        to: TetraAddress,
        handle: u32,
        link_id: u32,
        endpoint_id: u32,
        grant: TransmissionGrant,
        permission: bool,
        usage: u8,
        ts: u8,
    },
    /// Tell Brew the called MS answered (transmission granted, no permission flag).
    NetworkCircuitConnectConfirm { brew_uuid: u128 },
    /// Tell Brew the media path of call `call_id` is ready on timeslot `ts`.
    NetworkCircuitMediaReady { brew_uuid: u128, call_id: u16, ts: u8 },
    /// Tell Brew the incoming set-up is accepted.
    NetworkCircuitSetupAccept { brew_uuid: u128 },
    /// Tell Brew the incoming set-up is refused.
    NetworkCircuitSetupReject { brew_uuid: u128, cause: DisconnectCause },
    /// Dashboard telemetry: a local group call started.
    GroupCallStarted { call_id: u16, gssi: u32, caller_issi: u32, carrier_num: u16, ts: u8, priority: u8 },
    /// Forward a connect of a Brew-originated call to Brew as CONNECT_REQUEST: Brew's own set-up
    /// fields of the call, the hook and duplex selection of the called MS's U-CONNECT, and no
    /// grant or permission yet.
    NetworkCircuitConnectRequest {
        brew_uuid: u128,
        source_issi: u32,
        destination: u32,
        duplex: bool,
        hook_method: bool,
        params: NetworkCallParams,
    },
    /// Forward one DTMF digit of an individual call to Brew: one byte, 8 bits long, holding
    /// the digit's character.
    NetworkCircuitDtmf { brew_uuid: u128, digit: u8 },
    /// Dashboard telemetry: an individual call was set up between two local MSs.
    IndividualCallStarted { call_id: u16, calling_issi: u32, called_issi: u32, simplex: bool },
    /// Dashboard telemetry: an individual call was released.
    IndividualCallEnded { call_id: u16 },
    /// D-INFO carrying a call modification (`modify`, call status "call continue", T310 reset)
    /// to one leg of an individual call, stolen from its traffic channel.
    DInfoModify { call_id: u16, to: TetraAddress, modify: u64, ts: u8, usage: u8 },
    /// Dashboard telemetry: `speaker_issi` took the floor of call `call_id` (a group call to
    /// GSSI `dest_addr`, or an individual call whose other party is `dest_addr`), on the
    /// speaker's slot.
    CallSpeakerChanged { call_id: u16, is_group: bool, dest_addr: u32, speaker_issi: u32, carrier_num: u16, ts: u8 },
}

/// Call-control messages from the network side (Brew).
pub enum CallControl {
    /// A network speaker starts on a group.
    NetworkCallStart { brew_uuid: u128, source_issi: u32, dest_gssi: u32, priority: u8 },
    /// A network group call ends.
    NetworkCallEnd { brew_uuid: u128 },
    /// Brew asks to set up an individual call to a local MS.
    NetworkCircuitSetupRequest { brew_uuid: u128, call: NetworkCircuitCall },
    /// Brew accepted an individual call set-up.
    NetworkCircuitSetupAccept { brew_uuid: u128 },
    /// The called party behind Brew answered.
    NetworkCircuitConnectRequest { brew_uuid: u128, call: NetworkCircuitCall },
    /// Brew confirms the connect of a call it originated.
    NetworkCircuitConnectConfirm { brew_uuid: u128, grant: u8, permission: u8 },
    /// Brew rejected an individual call set-up, with a raw disconnect cause.
    NetworkCircuitSetupReject { brew_uuid: u128, cause: u8 },
    /// The called party behind Brew is alerting.
    NetworkCircuitAlert { brew_uuid: u128 },
    /// Brew's media path is ready (not expected here).
    NetworkCircuitMediaReady { brew_uuid: u128 },
    /// Brew released an individual call, with a raw disconnect cause.
    NetworkCircuitRelease { brew_uuid: u128, cause: u8 },
}

/// Why a group-call event could not be applied.
#[derive(Debug, Clone, Copy, PartialEq, Eq, Structural)]
pub enum GroupTransitionError {
    UnknownCall(u16),
    InvalidTransition { call_id: u16, state: GroupCallState, event: GroupEvent },
    NotCurrentSpeaker { call_id: u16, sender_issi: u32, current_speaker_issi: u32 },
    MissingCachedSetup(u16),
}

/// Events of the group-call state machine.
#[derive(Debug, Clone, Copy, PartialEq, Eq, Structural)]
pub enum GroupEvent {
    TxDemand,
    TxCeased,
    NetworkCallStart,
    NetworkCallEnd,
}

/// Call time-out announced for a configured maximum call duration (ETSI EN 300 392-2
/// table 14.50), rounded to the nearest step; 0 means no limit.
pub open spec fn spec_config_call_timeout(secs: u32) -> CallTimeout {
    if secs == 0 {
        CallTimeout::Infinite
    } else if secs <= 37 {
        CallTimeout::T30s
    } else if secs <= 52 {
        CallTimeout::T45s
    } else if secs <= 90 {
        CallTimeout::T60s
    } else if secs <= 150 {
        CallTimeout::T2m
    } else if secs <= 210 {
        CallTimeout::T3m
    } else if secs <= 270 {
        CallTimeout::T4m
    } else if secs <= 390 {
        CallTimeout::T5m
    } else if secs <= 540 {
        CallTimeout::T6m
    } else if secs <= 720 {
        CallTimeout::T8m
    } else if secs <= 900 {
        CallTimeout::T10m
    } else if secs <= 1080 {
        CallTimeout::T12m
    } else if secs <= 1350 {
        CallTimeout::T15m
    } else if secs <= 1800 {
        CallTimeout::T20m
    } else {
        CallTimeout::T30m
    }
}

/// The group-call events each state accepts: a transmission demand, a network call start and a
/// network call end in either state; a transmission ceased only while someone transmits.
pub open spec fn group_transition_allowed(state: GroupCallState, event: GroupEvent) -> bool {
    match event {
        GroupEvent::TxCeased => state is Transmitting,
        _ => true,
    }
}

/// The subscribers affiliated to group `g`.
pub open spec fn listeners_of(sg: Map<u32, Set<u32>>, g: u32) -> Set<u32> {
    sg.dom().filter(|i: u32| sg[i].contains(g))
}

/// The listener counter `l` of group `g` equals the number of subscribers affiliated to it,
/// plus `extra`; a group with no count has no entry.
pub open spec fn listener_ok(l: Map<u32, u32>, sg: Map<u32, Set<u32>>, g: u32, extra: int) -> bool {
    &&& l.contains_key(g) ==> l[g] > 0 && l[g] == listeners_of(sg, g).len() + extra
    &&& !l.contains_key(g) ==> listeners_of(sg, g).len() + extra == 0
}

/// Every listener counter is exact.
pub open spec fn listeners_consistent(l: Map<u32, u32>, sg: Map<u32, Set<u32>>) -> bool {
    forall|g: u32| #[trigger] listener_ok(l, sg, g, 0)
}

pub struct CcBsSubentity {
    config: CcConfig,
    dltime: TdmaTime,
    /// Destination address of the D-SETUP sent for each group call.
    cached_setups: HashMap<u16, TetraAddress>,
    circuits: CircuitMgr,
    active_calls: HashMap<u16, ActiveCall>,
    individual_calls: HashMap<u16, IndividualCall>,
    /// Registered ISSIs and the groups each is affiliated to.
    subscriber_groups: HashMap<u32, HashSet<u32>>,
    /// Number of affiliated subscribers per group; absent when none.
    group_listeners: HashMap<u32, u32>,
    telemetry: bool,
}

impl CcBsSubentity {
    /// Registered ISSIs and their group affiliations.
    pub closed spec fn subscribers(&self) -> Map<u32, Set<u32>> {
        self.subscriber_groups@.map_values(|s: HashSet<u32>| s@)
    }

    pub closed spec fn listeners(&self) -> Map<u32, u32> {
        self.group_listeners@
    }

    /// Active group calls by call identifier.
    pub closed spec fn calls(&self) -> Map<u16, ActiveCall> {
        self.active_calls@
    }

    /// Individual calls by call identifier.
    pub closed spec fn individual(&self) -> Map<u16, IndividualCall> {
        self.individual_calls@
    }

    /// Destination of the cached D-SETUP per call identifier.
    pub closed spec fn setups(&self) -> Map<u16, TetraAddress> {
        self.cached_setups@
    }

    pub closed spec fn circuit_mgr(&self) -> CircuitMgr {
        self.circuits
    }

    pub closed spec fn spec_dltime(&self) -> TdmaTime {
        self.dltime
    }

    pub closed spec fn routing(&self) -> RoutingConfig {
        self.config.routing
    }

    pub closed spec fn spec_call_timeout_secs(&self) -> u32 {
        self.config.call_timeout_secs
    }

    pub closed spec fn spec_telemetry(&self) -> bool {
        self.telemetry
    }

    pub closed spec fn spec_network_connected(&self) -> bool {
        self.config.network_connected
    }

    /// A group with at least one affiliated subscriber.
    pub open spec fn spec_has_listener(&self, g: u32) -> bool {
        self.listeners().contains_key(g) && self.listeners()[g] > 0
    }

    /// Group traffic for `g` is forwarded to Brew.
    pub open spec fn routable(&self, g: u32) -> bool {
        spec_gssi_routable(&self.routing(), g)
    }

    /// Listener counters are exact and the circuit manager is well formed.
    pub closed spec fn wf(&self) -> bool {
        &&& listeners_consistent(self.listeners(), self.subscribers())
        &&& self.circuits.wf()
    }

    pub fn new(config: CcConfig) -> (s: Self)
        ensures
            s.wf(),
            s.subscribers() == Map::<u32, Set<u32>>::empty(),
            s.listeners() == Map::<u32, u32>::empty(),
            s.calls() == Map::<u16, ActiveCall>::empty(),
            s.individual() == Map::<u16, IndividualCall>::empty(),
            s.setups() == Map::<u16, TetraAddress>::empty(),
            s.routing() == config.routing,
            s.spec_call_timeout_secs() == config.call_timeout_secs,
            s.spec_network_connected() == config.network_connected,
            !s.spec_telemetry(),
    {
        let s = CcBsSubentity {
            config,
            dltime: TdmaTime::start(),
            cached_setups: HashMap::new(),
            circuits: CircuitMgr::new(),
            active_calls: HashMap::new(),
            individual_calls: HashMap::new(),
            subscriber_groups: HashMap::new(),
            group_listeners: HashMap::new(),
            telemetry: false,
        };
        proof {
            assert(s.subscribers() =~= Map::<u32, Set<u32>>::empty());
            assert forall|g: u32| #[trigger] listener_ok(s.listeners(), s.subscribers(), g, 0) by {
                assert(listeners_of(s.subscribers(), g) =~= Set::<u32>::empty());
            }
        }
        s
    }

    /// Replace the configuration.
    pub fn set_config(&mut self, config: CcConfig)
        requires
            old(self).wf(),
        ensures
            final(self).wf(),
            final(self).routing() == config.routing,
            final(self).spec_call_timeout_secs() == config.call_timeout_secs,
            final(self).spec_network_connected() == config.network_connected,
            final(self).subscribers() == old(self).subscribers(),
            final(self).listeners() == old(self).listeners(),
            final(self).calls() == old(self).calls(),
            final(self).individual() == old(self).individual(),
            final(self).setups() == old(self).setups(),
            final(self).circuit_mgr() == old(self).circuit_mgr(),
            final(self).spec_telemetry() == old(self).spec_telemetry(),
    {
        self.config = config;
    }

    /// Report call-lifecycle events to the dashboard from now on.
    pub fn set_telemetry(&mut self)
        requires
            old(self).wf(),
        ensures
            final(self).wf(),
            final(self).spec_telemetry(),
            final(self).routing() == old(self).routing(),
            final(self).spec_call_timeout_secs() == old(self).spec_call_timeout_secs(),
            final(self).subscribers() == old(self).subscribers(),
            final(self).listeners() == old(self).listeners(),
            final(self).calls() == old(self).calls(),
            final(self).individual() == old(self).individual(),
            final(self).setups() == old(self).setups(),
            final(self).circuit_mgr() == old(self).circuit_mgr(),
    {
        self.telemetry = true;
    }

    /// The call time-out announced in D-SETUP and D-CONNECT.
    pub fn config_call_timeout(&self) -> (t: CallTimeout)
        ensures
            t == spec_config_call_timeout(self.spec_call_timeout_secs()),
    {
        let secs = self.config.call_timeout_secs;
        if secs == 0 {
            CallTimeout::Infinite
        } else if secs <= 37 {
            CallTimeout::T30s
        } else if secs <= 52 {
            CallTimeout::T45s
        } else if secs <= 90 {
            CallTimeout::T60s
        } else if secs <= 150 {
            CallTimeout::T2m
        } else if secs <= 210 {
            CallTimeout::T3m
        } else if secs <= 270 {
            CallTimeout::T4m
        } else if secs <= 390 {
            CallTimeout::T5m
        } else if secs <= 540 {
            CallTimeout::T6m
        } else if secs <= 720 {
            CallTimeout::T8m
        } else if secs <= 900 {
            CallTimeout::T10m
        } else if secs <= 1080 {
            CallTimeout::T12m
        } else if secs <= 1350 {
            CallTimeout::T15m
        } else if secs <= 1800 {
            CallTimeout::T20m
        } else {
            CallTimeout::T30m
        }
    }

    /// All registered ISSIs, each once, in the map's iteration order.
    pub fn subscriber_issis(&self) -> (r: Vec<u32>)
        ensures
            r@.to_set() == self.subscribers().dom(),
            r@.no_duplicates(),
    {
        let r = map_keys(&self.subscriber_groups);
        assert(self.subscribers().dom() =~= self.subscriber_groups@.dom());
        r
    }

    /// The groups an ISSI is affiliated to, each once; empty for an unknown ISSI.
    pub fn subscriber_groups_for(&self, issi: u32) -> (r: Vec<u32>)
        ensures
            self.subscribers().contains_key(issi) ==> r@.to_set() == self.subscribers()[issi],
            !self.subscribers().contains_key(issi) ==> r@.len() == 0,
            r@.no_duplicates(),
    {
        match self.subscriber_groups.get(&issi) {
            Some(s) => set_elements(s),
            None => Vec::new(),
        }
    }

    /// Whether at least one subscriber is affiliated to group `gssi`.
    pub fn has_listener(&self, gssi: u32) -> (r: bool)
        ensures
            r == self.spec_has_listener(gssi),
    {
        match self.group_listeners.get(&gssi) {
            Some(n) => *n > 0,
            None => false,
        }
    }

    fn inc_group_listener(&mut self, gssi: u32)
        requires
            old(self).group_listeners@.contains_key(gssi) ==> old(self).group_listeners@[gssi] < u32::MAX,
        ensures
            final(self).group_listeners@ == old(self).group_listeners@.insert(
                gssi,
                (if old(self).group_listeners@.contains_key(gssi) { old(self).group_listeners@[gssi] + 1 } else { 1 }) as u32,
            ),
            final(self).subscriber_groups@ == old(self).subscriber_groups@,
            final(self).active_calls@ == old(self).active_calls@,
            final(self).individual_calls@ == old(self).individual_calls@,
            final(self).cached_setups@ == old(self).cached_setups@,
            final(self).circuits == old(self).circuits,
            final(self).config == old(self).config,
            final(self).dltime == old(self).dltime,
            final(self).telemetry == old(self).telemetry,
    {
        let n: u32 = match self.group_listeners.get(&gssi) {
            Some(n) => *n,
            None => 0,
        };
        self.group_listeners.insert(gssi, n + 1);
    }

    fn dec_group_listener(&mut self, gssi: u32)
        ensures
            final(self).group_listeners@ == (if old(self).group_listeners@.contains_key(gssi) {
                if old(self).group_listeners@[gssi] <= 1 {
                    old(self).group_listeners@.remove(gssi)
                } else {
                    old(self).group_listeners@.insert(gssi, (old(self).group_listeners@[gssi] - 1) as u32)
                }
            } else {
                old(self).group_listeners@
            }),
            final(self).subscriber_groups@ == old(self).subscriber_groups@,
            final(self).active_calls@ == old(self).active_calls@,
            final(self).individual_calls@ == old(self).individual_calls@,
            final(self).cached_setups@ == old(self).cached_setups@,
            final(self).circuits == old(self).circuits,
            final(self).config == old(self).config,
            final(self).dltime == old(self).dltime,
            final(self).telemetry == old(self).telemetry,
    {
        let n: Option<u32> = match self.group_listeners.get(&gssi) {
            Some(n) => Some(*n),
            None => None,
        };
        match n {
            Some(n) => {
                if n <= 1 {
                    self.group_listeners.remove(&gssi);
                } else {
                    self.group_listeners.insert(gssi, n - 1);
                }
            },
            None => {},
        }
    }
}

/// The UMAC close signal for a circuit-close result.
pub open spec fn close_signal(cr: Result<CmceCircuit, CircuitErr>) -> Seq<CcAction> {
    match cr {
        Ok(c) => seq![CcAction::CircuitClose { dir: c.direction, ts: c.ts }],
        Err(_) => Seq::empty(),
    }
}

/// What Brew is told when group call `call_id` ends: a local call's end, or the end of the
/// network call it carries; nothing when the group is not routed over Brew.
pub open spec fn brew_release_notice(c: ActiveCall, call_id: u16, routable: bool) -> Seq<CcAction> {
    if !routable {
        Seq::empty()
    } else {
        match c.origin {
            CallOrigin::Local { .. } => seq![CcAction::CallEnded { dest: ControlDest::Brew, call_id, ts: c.ts }],
            CallOrigin::Network { brew_uuid } => seq![CcAction::NetworkCallEnd { brew_uuid }],
        }
    }
}

/// Actions of releasing active group call `c` (id `call_id`, D-SETUP sent to `dest`) whose
/// circuit close gave `cr`.
pub open spec fn group_release_actions(
    call_id: u16,
    c: ActiveCall,
    dest: TetraAddress,
    cause: DisconnectCause,
    cr: Result<CmceCircuit, CircuitErr>,
    routable: bool,
    telemetry: bool,
) -> Seq<CcAction> {
    seq![CcAction::DRelease { call_id, to: dest, cause, ts: None }] + close_signal(cr) + seq![
        CcAction::CallEnded { dest: ControlDest::Umac, call_id, ts: c.ts },
    ] + brew_release_notice(c, call_id, routable) + if telemetry {
        seq![CcAction::GroupCallEnded { call_id }]
    } else {
        Seq::<CcAction>::empty()
    }
}

/// An action that releasing a group call of `g` can produce.
pub open spec fn is_group_release_action(a: CcAction) -> bool {
    ||| a is DRelease
    ||| a is CircuitClose
    ||| a is CallEnded
    ||| a is NetworkCallEnd
    ||| a is GroupCallEnded
}

/// The counter correction still owed to `g`: one increment (or decrement) if it is pending.
pub open spec fn pending_delta(pending: Seq<u32>, g: u32, inc: bool) -> int {
    if pending.contains(g) { if inc { -1int } else { 1int } } else { 0int }
}

proof fn lemma_listeners_split(sg: Map<u32, Set<u32>>, i: u32, g: u32)
    requires
        sg.dom().finite(),
    ensures
        listeners_of(sg.remove(i), g).finite(),
        !listeners_of(sg.remove(i), g).contains(i),
        listeners_of(sg, g) == (if sg.contains_key(i) && sg[i].contains(g) {
            listeners_of(sg.remove(i), g).insert(i)
        } else {
            listeners_of(sg.remove(i), g)
        }),
        listeners_of(sg, g).len() == listeners_of(sg.remove(i), g).len() + (if sg.contains_key(i) && sg[i].contains(g) {
            1int
        } else {
            0int
        }),
{
    let r = sg.remove(i);
    assert(r.dom().finite());
    r.dom().lemma_len_filter(|x: u32| r[x].contains(g));
    let b = listeners_of(r, g);
    if sg.contains_key(i) && sg[i].contains(g) {
        assert(listeners_of(sg, g) =~= b.insert(i));
    } else {
        assert(listeners_of(sg, g) =~= b);
    }
}

proof fn lemma_listeners_bounded(sg: Map<u32, Set<u32>>, g: u32)
    requires
        sg.dom().finite(),
    ensures
        listeners_of(sg, g).len() <= sg.dom().len(),
{
    sg.dom().lemma_len_filter(|x: u32| sg[x].contains(g));
}

impl CcBsSubentity {
    /// `new` and `q1` are `self` and `q0` after releasing the group call (or pending set-up)
    /// `call_id` with `cause`: nothing happens without a cached D-SETUP; otherwise D-RELEASE goes
    /// to the set-up's destination and an active call's circuit is closed and announced.
    pub open spec fn group_released(self, new: Self, q0: Seq<CcAction>, q1: Seq<CcAction>, call_id: u16, cause: DisconnectCause) -> bool {
        &&& !self.setups().contains_key(call_id) ==> new.calls() == self.calls() && new.setups()
                == self.setups() && new.circuit_mgr() == self.circuit_mgr() && q1 == q0
        &&& self.setups().contains_key(call_id) ==> {
                let dest = self.setups()[call_id];
                &&& new.calls() == self.calls().remove(call_id)
                &&& new.setups() == self.setups().remove(call_id)
                &&& !self.calls().contains_key(call_id) ==> q1 == q0.push(
                    CcAction::DRelease { call_id, to: dest, cause, ts: None },
                ) && new.circuit_mgr() == self.circuit_mgr()
                &&& self.calls().contains_key(call_id) ==> {
                    let c = self.calls()[call_id];
                    exists|cr: Result<CmceCircuit, CircuitErr>|
                        circuit_closed_on_ts(self.circuit_mgr(), new.circuit_mgr(), Direction::Both, c.ts, cr)
                            && q1 == q0 + group_release_actions(
                            call_id,
                            c,
                            dest,
                            cause,
                            cr,
                            self.routable(c.dest_gssi),
                            self.spec_telemetry(),
                        )
                }
            }
    }
}

impl CcBsSubentity {
    /// Apply one listener increment (or decrement) for each group of `gs`, whose counters are
    /// one short of (or one over) the affiliations already recorded.
    fn apply_listener_deltas(&mut self, gs: &Vec<u32>, inc: bool)
        requires
            gs@.no_duplicates(),
            forall|g: u32| #[trigger] listener_ok(
                old(self).group_listeners@,
                old(self).subscribers(),
                g,
                pending_delta(gs@, g, inc),
            ),
            inc ==> old(self).subscriber_groups@.dom().len() <= u32::MAX,
        ensures
            listeners_consistent(final(self).group_listeners@, final(self).subscribers()),
            final(self).subscriber_groups@ == old(self).subscriber_groups@,
            final(self).active_calls@ == old(self).active_calls@,
            final(self).individual_calls@ == old(self).individual_calls@,
            final(self).cached_setups@ == old(self).cached_setups@,
            final(self).circuits == old(self).circuits,
            final(self).config == old(self).config,
            final(self).dltime == old(self).dltime,
            final(self).telemetry == old(self).telemetry,
    {
        let ghost sg = self.subscribers();
        let mut k: usize = 0;
        assert(gs@.subrange(0, gs@.len() as int) =~= gs@);
        while k < gs.len()
            invariant
                k <= gs@.len(),
                gs@.no_duplicates(),
                self.subscribers() == sg,
                self.subscriber_groups@ == old(self).subscriber_groups@,
                self.active_calls@ == old(self).active_calls@,
                self.individual_calls@ == old(self).individual_calls@,
                self.cached_setups@ == old(self).cached_setups@,
                self.circuits == old(self).circuits,
                self.config == old(self).config,
                self.dltime == old(self).dltime,
                self.telemetry == old(self).telemetry,
                inc ==> self.subscriber_groups@.dom().len() <= u32::MAX,
                forall|g: u32| #[trigger] listener_ok(
                    self.group_listeners@,
                    sg,
                    g,
                    pending_delta(gs@.subrange(k as int, gs@.len() as int), g, inc),
                ),
            decreases gs@.len() - k,
        {
            let g = gs[k];
            let ghost pend = gs@.subrange(k as int, gs@.len() as int);
            let ghost rest = gs@.subrange(k + 1, gs@.len() as int);
            assert(pend[0] == g);
            assert(!rest.contains(g)) by {
                if rest.contains(g) {
                    let w = choose|w: int| 0 <= w < rest.len() && rest[w] == g;
                    assert(gs@[k + 1 + w] == gs@[k as int]);
                }
            }
            assert forall|h: u32| h != g implies rest.contains(h) == pend.contains(h) by {
                if pend.contains(h) {
                    let w = choose|w: int| 0 <= w < pend.len() && pend[w] == h;
                    assert(w != 0);
                    assert(rest[w - 1] == h);
                }
                if rest.contains(h) {
                    let w = choose|w: int| 0 <= w < rest.len() && rest[w] == h;
                    assert(pend[w + 1] == h);
                }
            }
            let ghost before = self.group_listeners@;
            assert(listener_ok(before, sg, g, pending_delta(pend, g, inc)));
            if inc {
                proof {
                    assert(sg.dom() =~= self.subscriber_groups@.dom());
                    lemma_listeners_bounded(sg, g);
                }
                self.inc_group_listener(g);
            } else {
                self.dec_group_listener(g);
            }
            proof {
                assert forall|h: u32| #[trigger] listener_ok(
                    self.group_listeners@,
                    sg,
                    h,
                    pending_delta(rest, h, inc),
                ) by {
                    if h != g {
                        assert(listener_ok(before, sg, h, pending_delta(pend, h, inc)));
                    }
                }
            }
            k = k + 1;
        }
        proof {
            assert forall|g: u32| #[trigger] listener_ok(self.group_listeners@, self.subscribers(), g, 0) by {
                assert(!gs@.subrange(gs@.len() as int, gs@.len() as int).contains(g));
                assert(listener_ok(
                    self.group_listeners@,
                    self.subscribers(),
                    g,
                    pending_delta(gs@.subrange(gs@.len() as int, gs@.len() as int), g, inc),
                ));
            }
        }
    }

    /// Release a group call: D-RELEASE to the group, close its circuit, tell UMAC and Brew, and
    /// forget it. Nothing happens for a call without a cached D-SETUP.
    pub fn release_group_call(&mut self, queue: &mut Vec<CcAction>, call_id: u16, cause: DisconnectCause)
        requires
            old(self).wf(),
        ensures
            final(self).wf(),
            final(self).subscribers() == old(self).subscribers(),
            final(self).listeners() == old(self).listeners(),
            final(self).individual() == old(self).individual(),
            final(self).routing() == old(self).routing(),
            final(self).spec_call_timeout_secs() == old(self).spec_call_timeout_secs(),
            final(self).spec_telemetry() == old(self).spec_telemetry(),
            final(self).spec_dltime() == old(self).spec_dltime(),
            old(self).group_released(*final(self), old(queue)@, final(queue)@, call_id, cause),
    {
        let dest = match self.cached_setups.get(&call_id) {
            Some(d) => *d,
            None => return,
        };
        let ghost q0 = queue@;
        queue.push(CcAction::DRelease { call_id, to: dest, cause, ts: None });
        let call: Option<ActiveCall> = match self.active_calls.get(&call_id) {
            Some(c) => Some(*c),
            None => None,
        };
        match call {
            Some(c) => {
                let ghost q1 = queue@;
                let cr = self.circuits.close_circuit(Direction::Both, c.ts);
                match cr {
                    Ok(circuit) => queue.push(CcAction::CircuitClose { dir: circuit.direction, ts: circuit.ts }),
                    Err(_) => {},
                }
                queue.push(CcAction::CallEnded { dest: ControlDest::Umac, call_id, ts: c.ts });
                let ghost q2 = queue@;
                if is_brew_gssi_routable(&self.config.routing, c.dest_gssi) {
                    match c.origin {
                        CallOrigin::Local { .. } => queue.push(CcAction::CallEnded { dest: ControlDest::Brew, call_id, ts: c.ts }),
                        CallOrigin::Network { brew_uuid } => queue.push(CcAction::NetworkCallEnd { brew_uuid }),
                    }
                }
                let ghost q3 = queue@;
                self.cached_setups.remove(&call_id);
                self.active_calls.remove(&call_id);
                if self.telemetry {
                    queue.push(CcAction::GroupCallEnded { call_id });
                }
                proof {
                    assert(c == old(self).calls()[call_id]);
                    assert(self.active_calls@ =~= old(self).active_calls@.remove(call_id));
                    assert(self.cached_setups@ =~= old(self).cached_setups@.remove(call_id));
                    assert(circuit_closed_on_ts(old(self).circuit_mgr(), self.circuit_mgr(), Direction::Both, c.ts, cr));
                    assert(queue@ =~= q0 + group_release_actions(
                        call_id,
                        c,
                        dest,
                        cause,
                        cr,
                        old(self).routable(c.dest_gssi),
                        old(self).spec_telemetry(),
                    ));
                }
            },
            None => {
                self.cached_setups.remove(&call_id);
                self.active_calls.remove(&call_id);
            },
        }
    }
}

/// Calls with a cached D-SETUP whose group is in `gs` and has no listener according to the
/// counters `l`.
pub open spec fn unlistened_calls(
    calls: Map<u16, ActiveCall>,
    setups: Map<u16, TetraAddress>,
    gs: Set<u32>,
    l: Map<u32, u32>,
) -> Set<u16> {
    calls.dom().filter(
        |id: u16|
            setups.contains_key(id) && gs.contains(calls[id].dest_gssi) && !(l.contains_key(calls[id].dest_gssi)
                && l[calls[id].dest_gssi] > 0),
    )
}

/// `new` extends `old` with release actions only, among them a D-RELEASE with cause
/// `SwmiRequestedDisconnection` for each call of `ids`, sent to its cached destination.
pub open spec fn release_log(old: Seq<CcAction>, new: Seq<CcAction>, ids: Set<u16>, setups: Map<u16, TetraAddress>) -> bool {
    &&& old.len() <= new.len()
    &&& new.take(old.len() as int) == old
    &&& forall|i: int| old.len() <= i < new.len() ==> is_group_release_action(#[trigger] new[i])
    &&& forall|id: u16| #[trigger] ids.contains(id) ==> new.skip(old.len() as int).contains(
        CcAction::DRelease { call_id: id, to: setups[id], cause: DisconnectCause::SwmiRequestedDisconnection, ts: None },
    )
}

proof fn lemma_release_actions_kind(
    call_id: u16,
    c: ActiveCall,
    dest: TetraAddress,
    cause: DisconnectCause,
    cr: Result<CmceCircuit, CircuitErr>,
    routable: bool,
    telemetry: bool,
)
    ensures
        ({
            let a = group_release_actions(call_id, c, dest, cause, cr, routable, telemetry);
            &&& a.len() > 0
            &&& a[0] == CcAction::DRelease { call_id, to: dest, cause, ts: None }
            &&& forall|i: int| 0 <= i < a.len() ==> is_group_release_action(#[trigger] a[i])
        }),
{
    let a = group_release_actions(call_id, c, dest, cause, cr, routable, telemetry);
    let p1 = seq![CcAction::DRelease { call_id, to: dest, cause, ts: None }];
    let p2 = close_signal(cr);
    let p3 = seq![CcAction::CallEnded { dest: ControlDest::Umac, call_id, ts: c.ts }];
    let p4 = brew_release_notice(c, call_id, routable);
    let p5 = if telemetry { seq![CcAction::GroupCallEnded { call_id }] } else { Seq::<CcAction>::empty() };
    assert(a == p1 + p2 + p3 + p4 + p5);
    assert forall|i: int| 0 <= i < a.len() implies is_group_release_action(#[trigger] a[i]) by {
        let n1 = p1.len() as int;
        let n2 = n1 + p2.len();
        let n3 = n2 + p3.len();
        let n4 = n3 + p4.len();
        if i < n1 {
        } else if i < n2 {
            assert(a[i] == p2[i - n1]);
        } else if i < n3 {
            assert(a[i] == p3[i - n2]);
        } else if i < n4 {
            assert(a[i] == p4[i - n3]);
        } else {
            assert(a[i] == p5[i - n4]);
        }
    }
}

impl CcBsSubentity {
    /// Release every call of group `gssi` once the group has no listener left; a network call
    /// routed over Brew is first announced as ended to Brew.
    pub fn drop_group_calls_if_unlistened(&mut self, queue: &mut Vec<CcAction>, gssi: u32)
        requires
            old(self).wf(),
        ensures
            final(self).wf(),
            final(self).subscribers() == old(self).subscribers(),
            final(self).listeners() == old(self).listeners(),
            final(self).individual() == old(self).individual(),
            final(self).routing() == old(self).routing(),
            final(self).spec_call_timeout_secs() == old(self).spec_call_timeout_secs(),
            final(self).spec_telemetry() == old(self).spec_telemetry(),
            final(self).spec_dltime() == old(self).spec_dltime(),
            final(self).calls() == old(self).calls().remove_keys(
                unlistened_calls(old(self).calls(), old(self).setups(), set![gssi], old(self).listeners()),
            ),
            final(self).setups() == old(self).setups().remove_keys(
                unlistened_calls(old(self).calls(), old(self).setups(), set![gssi], old(self).listeners()),
            ),
            release_log(
                old(queue)@,
                final(queue)@,
                unlistened_calls(old(self).calls(), old(self).setups(), set![gssi], old(self).listeners()),
                old(self).setups(),
            ),
            old(self).spec_has_listener(gssi) ==> final(queue)@ == old(queue)@ && final(self).circuit_mgr()
                == old(self).circuit_mgr(),
    {
        let ghost drop_set = unlistened_calls(old(self).calls(), old(self).setups(), set![gssi], old(self).listeners());
        let ghost calls0 = self.active_calls@;
        let ghost setups0 = self.cached_setups@;
        let ghost q0 = queue@;
        if self.has_listener(gssi) {
            proof {
                assert(drop_set =~= Set::<u16>::empty());
                assert(self.calls() =~= calls0.remove_keys(drop_set));
                assert(self.setups() =~= setups0.remove_keys(drop_set));
                assert(queue@.take(q0.len() as int) =~= q0);
            }
            return;
        }
        let ids = map_keys(&self.active_calls);
        let mut to_drop: Vec<(u16, CallOrigin)> = Vec::new();
        let mut i: usize = 0;
        while i < ids.len()
            invariant
                self.active_calls@ == calls0,
                ids@.to_set() == calls0.dom(),
                ids@.no_duplicates(),
                i <= ids@.len(),
                forall|j: int| 0 <= j < to_drop@.len() ==> calls0.contains_key(#[trigger] to_drop@[j].0)
                    && calls0[to_drop@[j].0].dest_gssi == gssi && to_drop@[j].1 == calls0[to_drop@[j].0].origin,
                forall|j: int| 0 <= j < to_drop@.len() ==> exists|w: int| 0 <= w < i && ids@[w] == #[trigger] to_drop@[j].0,
                forall|a: int, b: int| 0 <= a < b < to_drop@.len() ==> to_drop@[a].0 != to_drop@[b].0,
                forall|w: int| 0 <= w < i && calls0[#[trigger] ids@[w]].dest_gssi == gssi ==> exists|j: int|
                    0 <= j < to_drop@.len() && to_drop@[j].0 == ids@[w],
            decreases ids@.len() - i,
        {
            let id = ids[i];
            assert(ids@.to_set().contains(id));
            let c = *self.active_calls.get(&id).unwrap();
            let ghost td0 = to_drop@;
            if c.dest_gssi == gssi {
                proof {
                    assert forall|j: int| 0 <= j < to_drop@.len() implies to_drop@[j].0 != id by {
                        let w = choose|w: int| 0 <= w < i && ids@[w] == #[trigger] to_drop@[j].0;
                        assert(ids@[w] != ids@[i as int]);
                    }
                }
                to_drop.push((id, c.origin));
            }
            proof {
                assert forall|w: int| 0 <= w < i + 1 && calls0[#[trigger] ids@[w]].dest_gssi == gssi implies exists|j: int|
                    0 <= j < to_drop@.len() && to_drop@[j].0 == ids@[w] by {
                    if w == i {
                        assert(to_drop@[to_drop@.len() - 1].0 == ids@[w]);
                    } else {
                        let j = choose|j: int| 0 <= j < td0.len() && td0[j].0 == ids@[w];
                        assert(to_drop@[j] == td0[j]);
                    }
                }
                assert forall|j: int| 0 <= j < to_drop@.len() implies exists|w: int| 0 <= w < i + 1 && ids@[w] == #[trigger] to_drop@[j].0 by {
                    if j < td0.len() {
                        assert(to_drop@[j] == td0[j]);
                        let w = choose|w: int| 0 <= w < i && ids@[w] == #[trigger] td0[j].0;
                    } else {
                        assert(ids@[i as int] == to_drop@[j].0);
                    }
                }
            }
            i = i + 1;
        }
        proof {
            assert forall|id: u16| drop_set.contains(id) implies exists|j: int| 0 <= j < to_drop@.len() && #[trigger] to_drop@[j].0 == id by {
                assert(ids@.to_set().contains(id));
                let w = choose|w: int| 0 <= w < ids@.len() && ids@[w] == id;
                assert(calls0[ids@[w]].dest_gssi == gssi);
            }
        }
        let mut k: usize = 0;
        while k < to_drop.len()
            invariant
                self.wf(),
                self.subscribers() == old(self).subscribers(),
                self.listeners() == old(self).listeners(),
                self.individual() == old(self).individual(),
                self.routing() == old(self).routing(),
                self.spec_call_timeout_secs() == old(self).spec_call_timeout_secs(),
                self.spec_telemetry() == old(self).spec_telemetry(),
                self.spec_dltime() == old(self).spec_dltime(),
                !old(self).spec_has_listener(gssi),
                drop_set == unlistened_calls(calls0, setups0, set![gssi], old(self).listeners()),
                calls0 == old(self).calls(),
                setups0 == old(self).setups(),
                k <= to_drop@.len(),
                forall|j: int| 0 <= j < to_drop@.len() ==> calls0.contains_key(#[trigger] to_drop@[j].0)
                    && calls0[to_drop@[j].0].dest_gssi == gssi && to_drop@[j].1 == calls0[to_drop@[j].0].origin,
                forall|a: int, b: int| 0 <= a < b < to_drop@.len() ==> to_drop@[a].0 != to_drop@[b].0,
                forall|id: u16| drop_set.contains(id) ==> exists|j: int| 0 <= j < to_drop@.len() && #[trigger] to_drop@[j].0 == id,
                self.calls() == calls0.remove_keys(
                    to_drop@.take(k as int).map_values(|p: (u16, CallOrigin)| p.0).to_set().intersect(setups0.dom()),
                ),
                self.setups() == setups0.remove_keys(
                    to_drop@.take(k as int).map_values(|p: (u16, CallOrigin)| p.0).to_set().intersect(setups0.dom()),
                ),
                q0.len() <= queue@.len(),
                queue@.take(q0.len() as int) == q0,
                forall|x: int| q0.len() <= x < queue@.len() ==> is_group_release_action(#[trigger] queue@[x]),
                forall|j: int| 0 <= j < k && setups0.contains_key(to_drop@[j].0) ==> queue@.skip(q0.len() as int).contains(
                    CcAction::DRelease {
                        call_id: #[trigger] to_drop@[j].0,
                        to: setups0[to_drop@[j].0],
                        cause: DisconnectCause::SwmiRequestedDisconnection,
                        ts: None,
                    },
                ),
            decreases to_drop@.len() - k,
        {
            let (id, origin) = to_drop[k];
            let ghost done = to_drop@.take(k as int).map_values(|p: (u16, CallOrigin)| p.0).to_set();
            let ghost done2 = to_drop@.take(k + 1).map_values(|p: (u16, CallOrigin)| p.0).to_set();
            proof {
                assert(to_drop@.take(k + 1).map_values(|p: (u16, CallOrigin)| p.0) =~= to_drop@.take(k as int).map_values(
                    |p: (u16, CallOrigin)| p.0,
                ).push(id));
                let ghost s1 = to_drop@.take(k as int).map_values(|p: (u16, CallOrigin)| p.0);
                let ghost s2 = to_drop@.take(k + 1).map_values(|p: (u16, CallOrigin)| p.0);
                assert forall|x: u16| done2.contains(x) == done.insert(id).contains(x) by {
                    if s2.contains(x) {
                        let w = choose|w: int| #![trigger s2[w]] 0 <= w < s2.len() && s2[w] == x;
                        if w < s1.len() {
                            assert(s1[w] == x);
                        }
                    }
                    if s1.contains(x) {
                        let w = choose|w: int| #![trigger s1[w]] 0 <= w < s1.len() && s1[w] == x;
                        assert(s2[w] == x);
                    }
                    if x == id {
                        assert(s2[s1.len() as int] == x);
                    }
                }
                assert(done2 =~= done.insert(id));
                let ghost done_seq = to_drop@.take(k as int).map_values(|p: (u16, CallOrigin)| p.0);
                assert(!done.contains(id)) by {
                    if done.contains(id) {
                        let w = choose|w: int| #![trigger done_seq[w]] 0 <= w < done_seq.len() && done_seq[w] == id;
                        assert(to_drop@[w].0 == to_drop@[k as int].0);
                    }
                }
            }
            let ghost qa = queue@;
            match origin {
                CallOrigin::Network { brew_uuid } => {
                    if is_brew_gssi_routable(&self.config.routing, gssi) {
                        queue.push(CcAction::NetworkCallEnd { brew_uuid });
                    }
                },
                CallOrigin::Local { .. } => {},
            }
            let ghost qb = queue@;
            let ghost before = *self;
            self.release_group_call(queue, id, DisconnectCause::SwmiRequestedDisconnection);
            proof {
                let d1 = done.intersect(setups0.dom());
                let d2 = done2.intersect(setups0.dom());
                assert(queue@.take(q0.len() as int) =~= q0);
                if setups0.contains_key(id) {
                    assert(before.setups().contains_key(id));
                    assert(d2 =~= d1.insert(id));
                    let c = before.calls()[id];
                    let cr = choose|cr: Result<CmceCircuit, CircuitErr>|
                        circuit_closed_on_ts(before.circuit_mgr(), self.circuit_mgr(), Direction::Both, c.ts, cr)
                            && queue@ == qb + group_release_actions(
                            id,
                            c,
                            before.setups()[id],
                            DisconnectCause::SwmiRequestedDisconnection,
                            cr,
                            before.routable(c.dest_gssi),
                            before.spec_telemetry(),
                        );
                    lemma_release_actions_kind(
                        id,
                        c,
                        before.setups()[id],
                        DisconnectCause::SwmiRequestedDisconnection,
                        cr,
                        before.routable(c.dest_gssi),
                        before.spec_telemetry(),
                    );
                    let acts = group_release_actions(
                        id,
                        c,
                        before.setups()[id],
                        DisconnectCause::SwmiRequestedDisconnection,
                        cr,
                        before.routable(c.dest_gssi),
                        before.spec_telemetry(),
                    );
                    assert(before.setups()[id] == setups0[id]);
                    assert(self.calls() =~= calls0.remove_keys(d2));
                    assert(self.setups() =~= setups0.remove_keys(d2));
                    assert forall|x: int| q0.len() <= x < queue@.len() implies is_group_release_action(#[trigger] queue@[x]) by {
                        if x < qa.len() {
                            assert(queue@[x] == qa[x]);
                        } else if x < qb.len() {
                            assert(queue@[x] == qb[x]);
                        } else {
                            assert(queue@[x] == acts[x - qb.len()]);
                        }
                    }
                    assert forall|j: int| 0 <= j < k + 1 && setups0.contains_key(to_drop@[j].0) implies queue@.skip(
                        q0.len() as int,
                    ).contains(
                        CcAction::DRelease {
                            call_id: #[trigger] to_drop@[j].0,
                            to: setups0[to_drop@[j].0],
                            cause: DisconnectCause::SwmiRequestedDisconnection,
                            ts: None,
                        },
                    ) by {
                        let target = CcAction::DRelease {
                            call_id: to_drop@[j].0,
                            to: setups0[to_drop@[j].0],
                            cause: DisconnectCause::SwmiRequestedDisconnection,
                            ts: None,
                        };
                        if j < k {
                            let old_suffix = qa.skip(q0.len() as int);
                            let w = choose|w: int| #![trigger old_suffix[w]] 0 <= w < old_suffix.len() && old_suffix[w] == target;
                            assert(queue@.skip(q0.len() as int)[w] == target);
                        } else {
                            assert(queue@.skip(q0.len() as int)[qb.len() - q0.len()] == target);
                        }
                    }
                } else {
                    assert(d2 =~= d1);
                    assert(queue@ == qb);
                    assert forall|x: int| q0.len() <= x < queue@.len() implies is_group_release_action(#[trigger] queue@[x]) by {
                        if x < qa.len() {
                            assert(queue@[x] == qa[x]);
                        }
                    }
                    assert forall|j: int| 0 <= j < k + 1 && setups0.contains_key(to_drop@[j].0) implies queue@.skip(
                        q0.len() as int,
                    ).contains(
                        CcAction::DRelease {
                            call_id: #[trigger] to_drop@[j].0,
                            to: setups0[to_drop@[j].0],
                            cause: DisconnectCause::SwmiRequestedDisconnection,
                            ts: None,
                        },
                    ) by {
                        let target = CcAction::DRelease {
                            call_id: to_drop@[j].0,
                            to: setups0[to_drop@[j].0],
                            cause: DisconnectCause::SwmiRequestedDisconnection,
                            ts: None,
                        };
                        let old_suffix = qa.skip(q0.len() as int);
                        let w = choose|w: int| #![trigger old_suffix[w]] 0 <= w < old_suffix.len() && old_suffix[w] == target;
                        assert(queue@.skip(q0.len() as int)[w] == target);
                    }
                }
            }
            k = k + 1;
        }
        proof {
            let done = to_drop@.take(to_drop@.len() as int).map_values(|p: (u16, CallOrigin)| p.0).to_set();
            assert(to_drop@.take(to_drop@.len() as int) =~= to_drop@);
            assert(done.intersect(setups0.dom()) =~= drop_set) by {
                let all_seq = to_drop@.map_values(|p: (u16, CallOrigin)| p.0);
                assert forall|id: u16| done.intersect(setups0.dom()).contains(id) implies drop_set.contains(id) by {
                    let w = choose|w: int| #![trigger all_seq[w]] 0 <= w < all_seq.len() && all_seq[w] == id;
                    assert(to_drop@[w].0 == id);
                    assert(calls0.contains_key(id) && calls0[id].dest_gssi == gssi);
                }
                assert forall|id: u16| drop_set.contains(id) implies done.intersect(setups0.dom()).contains(id) by {
                    let j = choose|j: int| 0 <= j < to_drop@.len() && #[trigger] to_drop@[j].0 == id;
                    assert(all_seq[j] == id);
                }
            }
            assert forall|id: u16| #[trigger] drop_set.contains(id) implies queue@.skip(q0.len() as int).contains(
                CcAction::DRelease { call_id: id, to: setups0[id], cause: DisconnectCause::SwmiRequestedDisconnection, ts: None },
            ) by {
                let j = choose|j: int| 0 <= j < to_drop@.len() && #[trigger] to_drop@[j].0 == id;
            }
        }
    }
}

/// The subscriber map after an update of `issi` with the groups `groups`.
pub open spec fn subscribers_after(
    sg: Map<u32, Set<u32>>,
    issi: u32,
    groups: Set<u32>,
    action: SubscriberAction,
) -> Map<u32, Set<u32>> {
    match action {
        SubscriberAction::Register => if sg.contains_key(issi) { sg } else { sg.insert(issi, Set::empty()) },
        SubscriberAction::Deregister => sg.remove(issi),
        SubscriberAction::Affiliate => sg.insert(
            issi,
            (if sg.contains_key(issi) { sg[issi] } else { Set::empty() }).union(groups),
        ),
        SubscriberAction::Deaffiliate => if sg.contains_key(issi) {
            sg.insert(issi, sg[issi].difference(groups))
        } else {
            sg
        },
    }
}

/// Subscriber updates compose as their order says: registering and then affiliating an ISSI
/// leaves it with its earlier groups (none if it was unknown) plus the new ones; affiliating
/// and then de-affiliating the same groups leaves its earlier groups less those; de-registering
/// (as a kick does) forgets the ISSI and takes it off every group's listeners; and an update of
/// one ISSI leaves every other ISSI as it was.
pub proof fn lemma_subscriber_sequence(sg: Map<u32, Set<u32>>, issi: u32, gs: Set<u32>, other: u32, g: u32)
    requires
        other != issi,
    ensures
        subscribers_after(subscribers_after(sg, issi, Set::empty(), SubscriberAction::Register), issi, gs, SubscriberAction::Affiliate)[issi]
            == (if sg.contains_key(issi) { sg[issi] } else { Set::<u32>::empty() }).union(gs),
        subscribers_after(subscribers_after(sg, issi, gs, SubscriberAction::Affiliate), issi, gs, SubscriberAction::Deaffiliate)[issi]
            == (if sg.contains_key(issi) { sg[issi] } else { Set::<u32>::empty() }).difference(gs),
        !subscribers_after(sg, issi, gs, SubscriberAction::Deregister).contains_key(issi),
        listeners_of(subscribers_after(sg, issi, gs, SubscriberAction::Deregister), g) == listeners_of(sg, g).remove(issi),
        forall|a: SubscriberAction|
            #![trigger subscribers_after(sg, issi, gs, a)]
            subscribers_after(sg, issi, gs, a).contains_key(other) == sg.contains_key(other) && (sg.contains_key(other)
                ==> subscribers_after(sg, issi, gs, a)[other] == sg[other]),
{
    let old_groups = if sg.contains_key(issi) { sg[issi] } else { Set::<u32>::empty() };
    let a1 = subscribers_after(sg, issi, gs, SubscriberAction::Affiliate);
    assert(a1[issi] == old_groups.union(gs));
    assert(old_groups.union(gs).difference(gs) =~= old_groups.difference(gs));
    assert(listeners_of(sg.remove(issi), g) =~= listeners_of(sg, g).remove(issi));
}

/// The groups whose calls are re-checked for listeners after an update of `issi`: those it
/// left (for an unknown ISSI, every group named in a de-affiliation).
pub open spec fn rechecked_groups(sg: Map<u32, Set<u32>>, issi: u32, groups: Set<u32>, action: SubscriberAction) -> Set<u32> {
    match action {
        SubscriberAction::Deregister => if sg.contains_key(issi) { sg[issi] } else { Set::empty() },
        SubscriberAction::Deaffiliate => if sg.contains_key(issi) { sg[issi].intersect(groups) } else { groups },
        _ => Set::empty(),
    }
}

/// 1 when `issi` is registered in `sg` and affiliated to `g`, else 0.
pub open spec fn member_count(sg: Map<u32, Set<u32>>, issi: u32, g: u32) -> int {
    if sg.contains_key(issi) && sg[issi].contains(g) { 1int } else { 0int }
}

proof fn lemma_listener_shift(l: Map<u32, u32>, sg0: Map<u32, Set<u32>>, sg1: Map<u32, Set<u32>>, issi: u32, g: u32)
    requires
        sg0.dom().finite(),
        sg1.dom().finite(),
        sg0.remove(issi) == sg1.remove(issi),
        listener_ok(l, sg0, g, 0),
    ensures
        listener_ok(l, sg1, g, member_count(sg0, issi, g) - member_count(sg1, issi, g)),
{
    lemma_listeners_split(sg0, issi, g);
    lemma_listeners_split(sg1, issi, g);
}

proof fn lemma_release_log_trans(
    q0: Seq<CcAction>,
    q1: Seq<CcAction>,
    q2: Seq<CcAction>,
    a: Set<u16>,
    b: Set<u16>,
    setups0: Map<u16, TetraAddress>,
    setups1: Map<u16, TetraAddress>,
)
    requires
        release_log(q0, q1, a, setups0),
        release_log(q1, q2, b, setups1),
        forall|id: u16| #[trigger] b.contains(id) ==> setups1[id] == setups0[id],
    ensures
        release_log(q0, q2, a.union(b), setups0),
{
    assert(q2.take(q0.len() as int) =~= q0) by {
        assert(q2.take(q1.len() as int).take(q0.len() as int) =~= q2.take(q0.len() as int));
    }
    assert forall|i: int| q0.len() <= i < q2.len() implies is_group_release_action(#[trigger] q2[i]) by {
        if i < q1.len() {
            assert(q2[i] == q2.take(q1.len() as int)[i]);
        }
    }
    assert forall|id: u16| #[trigger] a.union(b).contains(id) implies q2.skip(q0.len() as int).contains(
        CcAction::DRelease { call_id: id, to: setups0[id], cause: DisconnectCause::SwmiRequestedDisconnection, ts: None },
    ) by {
        let target = CcAction::DRelease { call_id: id, to: setups0[id], cause: DisconnectCause::SwmiRequestedDisconnection, ts: None };
        let s1 = q1.skip(q0.len() as int);
        let s2 = q2.skip(q0.len() as int);
        let t2 = q2.skip(q1.len() as int);
        if a.contains(id) {
            let w = choose|w: int| #![trigger s1[w]] 0 <= w < s1.len() && s1[w] == target;
            assert(q2.take(q1.len() as int)[q0.len() + w] == q1[q0.len() + w]);
            assert(s2[w] == target);
        } else {
            let w = choose|w: int| #![trigger t2[w]] 0 <= w < t2.len() && t2[w] == target;
            assert(s2[q1.len() - q0.len() + w] == target);
        }
    }
}

impl CcBsSubentity {
    /// Drop the calls of each group of `gs` that has no listener left.
    fn drop_unlistened_groups(&mut self, queue: &mut Vec<CcAction>, gs: &Vec<u32>)
        requires
            old(self).wf(),
        ensures
            final(self).wf(),
            final(self).subscribers() == old(self).subscribers(),
            final(self).listeners() == old(self).listeners(),
            final(self).individual() == old(self).individual(),
            final(self).routing() == old(self).routing(),
            final(self).spec_call_timeout_secs() == old(self).spec_call_timeout_secs(),
            final(self).spec_telemetry() == old(self).spec_telemetry(),
            final(self).spec_dltime() == old(self).spec_dltime(),
            final(self).calls() == old(self).calls().remove_keys(
                unlistened_calls(old(self).calls(), old(self).setups(), gs@.to_set(), old(self).listeners()),
            ),
            final(self).setups() == old(self).setups().remove_keys(
                unlistened_calls(old(self).calls(), old(self).setups(), gs@.to_set(), old(self).listeners()),
            ),
            release_log(
                old(queue)@,
                final(queue)@,
                unlistened_calls(old(self).calls(), old(self).setups(), gs@.to_set(), old(self).listeners()),
                old(self).setups(),
            ),
    {
        let ghost calls0 = self.calls();
        let ghost setups0 = self.setups();
        let ghost l = self.listeners();
        let ghost q0 = queue@;
        let mut k: usize = 0;
        proof {
            assert(unlistened_calls(calls0, setups0, gs@.take(0).to_set(), l) =~= Set::<u16>::empty());
            assert(self.calls() =~= calls0.remove_keys(Set::<u16>::empty()));
            assert(self.setups() =~= setups0.remove_keys(Set::<u16>::empty()));
            assert(queue@.take(q0.len() as int) =~= q0);
        }
        while k < gs.len()
            invariant
                self.wf(),
                k <= gs@.len(),
                self.subscribers() == old(self).subscribers(),
                self.listeners() == l,
                l == old(self).listeners(),
                self.individual() == old(self).individual(),
                self.routing() == old(self).routing(),
                self.spec_call_timeout_secs() == old(self).spec_call_timeout_secs(),
                self.spec_telemetry() == old(self).spec_telemetry(),
                self.spec_dltime() == old(self).spec_dltime(),
                calls0 == old(self).calls(),
                setups0 == old(self).setups(),
                self.calls() == calls0.remove_keys(unlistened_calls(calls0, setups0, gs@.take(k as int).to_set(), l)),
                self.setups() == setups0.remove_keys(unlistened_calls(calls0, setups0, gs@.take(k as int).to_set(), l)),
                release_log(q0, queue@, unlistened_calls(calls0, setups0, gs@.take(k as int).to_set(), l), setups0),
            decreases gs@.len() - k,
        {
            let g = gs[k];
            let ghost t0 = gs@.take(k as int).to_set();
            let ghost t1 = gs@.take(k + 1).to_set();
            let ghost u0 = unlistened_calls(calls0, setups0, t0, l);
            let ghost q1 = queue@;
            let ghost mid = *self;
            proof {
                assert forall|x: u32| t1.contains(x) == t0.insert(g).contains(x) by {
                    let s0 = gs@.take(k as int);
                    let s1 = gs@.take(k + 1);
                    if s1.contains(x) {
                        let w = choose|w: int| #![trigger s1[w]] 0 <= w < s1.len() && s1[w] == x;
                        if w < s0.len() {
                            assert(s0[w] == x);
                        }
                    }
                    if s0.contains(x) {
                        let w = choose|w: int| #![trigger s0[w]] 0 <= w < s0.len() && s0[w] == x;
                        assert(s1[w] == x);
                    }
                    if x == g {
                        assert(s1[k as int] == x);
                    }
                }
                assert(t1 =~= t0.insert(g));
            }
            self.drop_group_calls_if_unlistened(queue, g);
            proof {
                let u = unlistened_calls(mid.calls(), mid.setups(), set![g], l);
                assert(unlistened_calls(calls0, setups0, t1, l) =~= u0.union(u));
                assert(self.calls() =~= calls0.remove_keys(u0.union(u)));
                assert(self.setups() =~= setups0.remove_keys(u0.union(u)));
                assert forall|id: u16| #[trigger] u.contains(id) implies mid.setups()[id] == setups0[id] by {
                    assert(mid.calls().contains_key(id));
                }
                lemma_release_log_trans(q0, q1, queue@, u0, u, setups0, mid.setups());
            }
            k = k + 1;
        }
        assert(gs@.take(gs@.len() as int) =~= gs@);
    }

    /// Apply a subscriber update from MM. Registration adds the ISSI with no groups;
    /// de-registration forgets it; (de-)affiliation adds or removes groups. Listener counters
    /// follow, and calls of groups left without listeners are released.
    pub fn handle_subscriber_update(&mut self, queue: &mut Vec<CcAction>, update: MmSubscriberUpdate)
        requires
            old(self).wf(),
            update.action == SubscriberAction::Affiliate ==> old(self).subscribers().dom().len() < u32::MAX,
        ensures
            final(self).wf(),
            final(self).subscribers() == subscribers_after(
                old(self).subscribers(),
                update.issi,
                update.groups@.to_set(),
                update.action,
            ),
            ({
                let dropped = unlistened_calls(
                    old(self).calls(),
                    old(self).setups(),
                    rechecked_groups(old(self).subscribers(), update.issi, update.groups@.to_set(), update.action),
                    final(self).listeners(),
                );
                &&& final(self).calls() == old(self).calls().remove_keys(dropped)
                &&& final(self).setups() == old(self).setups().remove_keys(dropped)
                &&& release_log(old(queue)@, final(queue)@, dropped, old(self).setups())
            }),
            update.action is Register || update.action is Affiliate ==> final(queue)@ == old(queue)@,
            final(self).individual() == old(self).individual(),
            final(self).routing() == old(self).routing(),
            final(self).spec_call_timeout_secs() == old(self).spec_call_timeout_secs(),
            final(self).spec_telemetry() == old(self).spec_telemetry(),
            final(self).spec_dltime() == old(self).spec_dltime(),
    {
        let issi = update.issi;
        let groups = update.groups;
        let ghost sg0 = self.subscribers();
        let ghost g_set = groups@.to_set();
        let ghost l0 = self.listeners();
        let ghost q0 = queue@;
        proof {
            assert(queue@.take(q0.len() as int) =~= q0);
            assert(sg0.dom() =~= self.subscriber_groups@.dom());
        }
        match update.action {
            SubscriberAction::Register => {
                if !self.subscriber_groups.contains_key(&issi) {
                    self.subscriber_groups.insert(issi, HashSet::new());
                    proof {
                        assert(self.subscribers() =~= sg0.insert(issi, Set::empty()));
                        assert forall|h: u32| #[trigger] listener_ok(self.group_listeners@, self.subscribers(), h, 0) by {
                            assert(sg0.remove(issi) =~= self.subscribers().remove(issi));
                            lemma_listener_shift(l0, sg0, self.subscribers(), issi, h);
                        }
                    }
                } else {
                    assert(self.subscribers() == sg0);
                }
                assert(self.wf());
                proof {
                    let r = rechecked_groups(sg0, issi, g_set, update.action);
                    assert(unlistened_calls(old(self).calls(), old(self).setups(), r, self.listeners()) =~= Set::<u16>::empty());
                    assert(self.calls() =~= old(self).calls().remove_keys(Set::<u16>::empty()));
                    assert(self.setups() =~= old(self).setups().remove_keys(Set::<u16>::empty()));
                }
            },
            SubscriberAction::Deregister => {
                match self.subscriber_groups.remove(&issi) {
                    Some(existing) => {
                        let gs = set_elements(&existing);
                        proof {
                            assert(self.subscribers() =~= sg0.remove(issi));
                            assert forall|h: u32| #[trigger] listener_ok(
                                self.group_listeners@,
                                self.subscribers(),
                                h,
                                pending_delta(gs@, h, false),
                            ) by {
                                assert(sg0.remove(issi) =~= self.subscribers().remove(issi));
                                lemma_listener_shift(l0, sg0, self.subscribers(), issi, h);
                                assert(gs@.to_set().contains(h) == gs@.contains(h));
                            }
                        }
                        self.apply_listener_deltas(&gs, false);
                        self.drop_unlistened_groups(queue, &gs);
                    },
                    None => {
                        proof {
                            assert(self.subscribers() =~= sg0.remove(issi));
                            assert(self.subscribers() =~= sg0);
                            assert(self.wf());
                            let r = rechecked_groups(sg0, issi, g_set, update.action);
                            assert(unlistened_calls(old(self).calls(), old(self).setups(), r, self.listeners()) =~= Set::<u16>::empty());
                            assert(self.calls() =~= old(self).calls().remove_keys(Set::<u16>::empty()));
                            assert(self.setups() =~= old(self).setups().remove_keys(Set::<u16>::empty()));
                        }
                    },
                }
            },
            SubscriberAction::Affiliate => {
                let mut entry: HashSet<u32> = match self.subscriber_groups.remove(&issi) {
                    Some(s) => s,
                    None => HashSet::new(),
                };
                let ghost s0 = entry@;
                assert(s0 == (if sg0.contains_key(issi) { sg0[issi] } else { Set::<u32>::empty() }));
                let mut new_groups: Vec<u32> = Vec::new();
                let mut k: usize = 0;
                while k < groups.len()
                    invariant
                        k <= groups@.len(),
                        entry@ == s0.union(groups@.take(k as int).to_set()),
                        new_groups@.to_set() == entry@.difference(s0),
                        new_groups@.no_duplicates(),
                    decreases groups@.len() - k,
                {
                    let g = groups[k];
                    let ghost e0 = entry@;
                    let ghost n0 = new_groups@;
                    proof {
                        let a = groups@.take(k as int);
                        let b = groups@.take(k + 1);
                        assert forall|x: u32| b.to_set().contains(x) == a.to_set().insert(g).contains(x) by {
                            if b.contains(x) {
                                let w = choose|w: int| #![trigger b[w]] 0 <= w < b.len() && b[w] == x;
                                if w < a.len() {
                                    assert(a[w] == x);
                                }
                            }
                            if a.contains(x) {
                                let w = choose|w: int| #![trigger a[w]] 0 <= w < a.len() && a[w] == x;
                                assert(b[w] == x);
                            }
                            if x == g {
                                assert(b[k as int] == x);
                            }
                        }
                        assert(b.to_set() =~= a.to_set().insert(g));
                    }
                    if entry.insert(g) {
                        new_groups.push(g);
                        proof {
                            assert(!n0.contains(g)) by {
                                if n0.contains(g) {
                                    assert(n0.to_set().contains(g));
                                }
                            }
                            assert forall|x: u32| new_groups@.to_set().contains(x) == n0.to_set().insert(g).contains(x) by {
                                if new_groups@.contains(x) {
                                    let w = choose|w: int| #![trigger new_groups@[w]] 0 <= w < new_groups@.len() && new_groups@[w] == x;
                                    if w < n0.len() {
                                        assert(n0[w] == x);
                                    }
                                }
                                if n0.contains(x) {
                                    let w = choose|w: int| #![trigger n0[w]] 0 <= w < n0.len() && n0[w] == x;
                                    assert(new_groups@[w] == x);
                                }
                                if x == g {
                                    assert(new_groups@[n0.len() as int] == x);
                                }
                            }
                            assert(new_groups@.to_set() =~= entry@.difference(s0));
                        }
                    } else {
                        assert(new_groups@.to_set() =~= entry@.difference(s0));
                    }
                    k = k + 1;
                }
                assert(groups@.take(groups@.len() as int) =~= groups@);
                self.subscriber_groups.insert(issi, entry);
                proof {
                    let sg1 = self.subscribers();
                    assert(sg1 =~= subscribers_after(sg0, issi, g_set, update.action));
                    assert(sg0.remove(issi) =~= sg1.remove(issi));
                    assert forall|h: u32| #[trigger] listener_ok(self.group_listeners@, sg1, h, pending_delta(new_groups@, h, true)) by {
                        lemma_listener_shift(l0, sg0, sg1, issi, h);
                        assert(new_groups@.to_set().contains(h) == new_groups@.contains(h));
                    }
                    assert(self.subscriber_groups@.dom() =~= sg0.dom().insert(issi));
                }
                self.apply_listener_deltas(&new_groups, true);
                proof {
                    let r = rechecked_groups(sg0, issi, g_set, update.action);
                    assert(unlistened_calls(old(self).calls(), old(self).setups(), r, self.listeners()) =~= Set::<u16>::empty());
                    assert(self.calls() =~= old(self).calls().remove_keys(Set::<u16>::empty()));
                    assert(self.setups() =~= old(self).setups().remove_keys(Set::<u16>::empty()));
                }
            },
            SubscriberAction::Deaffiliate => {
                match self.subscriber_groups.remove(&issi) {
                    Some(mut entry) => {
                        let ghost s0 = entry@;
                        let mut removed: Vec<u32> = Vec::new();
                        let mut k: usize = 0;
                        while k < groups.len()
                            invariant
                                k <= groups@.len(),
                                entry@ == s0.difference(groups@.take(k as int).to_set()),
                                removed@.to_set() == s0.intersect(groups@.take(k as int).to_set()),
                                removed@.no_duplicates(),
                            decreases groups@.len() - k,
                        {
                            let g = groups[k];
                            let ghost n0 = removed@;
                            proof {
                                let a = groups@.take(k as int);
                                let b = groups@.take(k + 1);
                                assert forall|x: u32| b.to_set().contains(x) == a.to_set().insert(g).contains(x) by {
                                    if b.contains(x) {
                                        let w = choose|w: int| #![trigger b[w]] 0 <= w < b.len() && b[w] == x;
                                        if w < a.len() {
                                            assert(a[w] == x);
                                        }
                                    }
                                    if a.contains(x) {
                                        let w = choose|w: int| #![trigger a[w]] 0 <= w < a.len() && a[w] == x;
                                        assert(b[w] == x);
                                    }
                                    if x == g {
                                        assert(b[k as int] == x);
                                    }
                                }
                                assert(b.to_set() =~= a.to_set().insert(g));
                            }
                            if entry.remove(&g) {
                                removed.push(g);
                                proof {
                                    assert(!n0.contains(g)) by {
                                        if n0.contains(g) {
                                            assert(n0.to_set().contains(g));
                                        }
                                    }
                                    assert forall|x: u32| removed@.to_set().contains(x) == n0.to_set().insert(g).contains(x) by {
                                        if removed@.contains(x) {
                                            let w = choose|w: int| #![trigger removed@[w]] 0 <= w < removed@.len() && removed@[w] == x;
                                            if w < n0.len() {
                                                assert(n0[w] == x);
                                            }
                                        }
                                        if n0.contains(x) {
                                            let w = choose|w: int| #![trigger n0[w]] 0 <= w < n0.len() && n0[w] == x;
                                            assert(removed@[w] == x);
                                        }
                                        if x == g {
                                            assert(removed@[n0.len() as int] == x);
                                        }
                                    }
                                    assert(removed@.to_set() =~= s0.intersect(groups@.take(k + 1).to_set()));
                                    assert(entry@ =~= s0.difference(groups@.take(k + 1).to_set()));
                                }
                            } else {
                                assert(removed@.to_set() =~= s0.intersect(groups@.take(k + 1).to_set()));
                                assert(entry@ =~= s0.difference(groups@.take(k + 1).to_set()));
                            }
                            k = k + 1;
                        }
                        assert(groups@.take(groups@.len() as int) =~= groups@);
                        self.subscriber_groups.insert(issi, entry);
                        proof {
                            let sg1 = self.subscribers();
                            assert(sg1 =~= subscribers_after(sg0, issi, g_set, update.action));
                            assert(sg0.remove(issi) =~= sg1.remove(issi));
                            assert forall|h: u32| #[trigger] listener_ok(self.group_listeners@, sg1, h, pending_delta(removed@, h, false)) by {
                                lemma_listener_shift(l0, sg0, sg1, issi, h);
                                assert(removed@.to_set().contains(h) == removed@.contains(h));
                            }
                        }
                        self.apply_listener_deltas(&removed, false);
                        proof {
                            assert(removed@.to_set() == rechecked_groups(sg0, issi, g_set, update.action));
                        }
                        self.drop_unlistened_groups(queue, &removed);
                    },
                    None => {
                        assert(self.subscribers() =~= sg0);
                        self.drop_unlistened_groups(queue, &groups);
                    },
                }
            },
        }
    }
}

/// Events of the individual-call state machine.
#[derive(Debug, Clone, Copy, PartialEq, Eq, Structural)]
pub enum IndividualEvent {
    CreateSetup,
    BindCalledContext,
    SetNetworkCall,
    MarkConnectRequestSent,
    Alert,
    Connect,
}

/// Why an individual-call event could not be applied.
#[derive(Debug, Clone, Copy, PartialEq, Eq, Structural)]
pub enum IndividualTransitionError {
    UnknownCall(u16),
    DuplicateCall(u16),
    InvalidTransition { call_id: u16, state: IndividualCallState, event: IndividualEvent },
    MissingBrewUuid(u16),
    NotBrewOriginated(u16),
    ConnectRequestAlreadySent(u16),
}

/// The individual-call events each state accepts: set-up events while the call is being set
/// up, alerting only before the network acknowledged it, and no event once the call is active.
pub open spec fn individual_transition_allowed(state: IndividualCallState, event: IndividualEvent) -> bool {
    match event {
        IndividualEvent::CreateSetup => false,
        IndividualEvent::Alert => state == IndividualCallState::CallSetupPending || state
            == IndividualCallState::IncomingSetupPending || state == IndividualCallState::IncomingAlerting,
        _ => state != IndividualCallState::Active,
    }
}

/// The D-RELEASEs of one round to the legs of individual call `c` that live on this cell,
/// stolen from each leg's traffic channel once the call is active.
pub open spec fn leg_releases(call_id: u16, c: IndividualCall, cause: DisconnectCause) -> Seq<CcAction> {
    let active = c.state == IndividualCallState::Active;
    (if !c.calling_over_brew {
        seq![CcAction::DRelease { call_id, to: c.calling_addr, cause, ts: if active { Some(c.calling_ts) } else { None } }]
    } else {
        Seq::empty()
    }) + (if !c.called_over_brew {
        seq![CcAction::DRelease { call_id, to: c.called_addr, cause, ts: if active { Some(c.called_ts) } else { None } }]
    } else {
        Seq::empty()
    })
}

/// `s` repeated `n` times.
pub open spec fn repeat_actions(s: Seq<CcAction>, n: nat) -> Seq<CcAction>
    decreases n,
{
    if n == 0 { Seq::empty() } else { repeat_actions(s, (n - 1) as nat) + s }
}

/// Actions of releasing individual call `c`: D-RELEASE twice on the traffic channel of an
/// active call (three times on the MCCH during set-up), close the circuit of each leg's
/// timeslot, tell Brew when a leg lives there (unless the SwMI itself disconnects), and, with
/// `telemetry` on, report the call ended, once.
pub open spec fn individual_release_actions(
    call_id: u16,
    c: IndividualCall,
    cause: DisconnectCause,
    cr1: Result<CmceCircuit, CircuitErr>,
    cr2: Result<CmceCircuit, CircuitErr>,
    telemetry: bool,
) -> Seq<CcAction> {
    repeat_actions(leg_releases(call_id, c, cause), if c.state == IndividualCallState::Active { 2 } else { 3 })
        + close_signal(cr1) + seq![CcAction::CallEnded { dest: ControlDest::Umac, call_id, ts: c.calling_ts }]
        + (if c.called_ts != c.calling_ts {
        close_signal(cr2) + seq![CcAction::CallEnded { dest: ControlDest::Umac, call_id, ts: c.called_ts }]
    } else {
        Seq::empty()
    }) + (if (c.called_over_brew || c.calling_over_brew) && cause != DisconnectCause::SwmiRequestedDisconnection
        && c.brew_uuid is Some {
        seq![CcAction::NetworkCircuitRelease { brew_uuid: c.brew_uuid.unwrap(), cause }]
    } else {
        Seq::empty()
    }) + (if telemetry {
        seq![CcAction::IndividualCallEnded { call_id }]
    } else {
        Seq::empty()
    })
}

/// The disconnect cause an action carries: that of a release, disconnect or rejection.
pub open spec fn action_cause(a: CcAction) -> Option<DisconnectCause> {
    match a {
        CcAction::DRelease { cause, .. } => Some(cause),
        CcAction::NetworkCircuitRelease { cause, .. } => Some(cause),
        CcAction::DDisconnect { cause, .. } => Some(cause),
        CcAction::DReleaseLink { cause, .. } => Some(cause),
        CcAction::NetworkCircuitSetupReject { cause, .. } => Some(cause),
        _ => None,
    }
}

/// Every action of `s` from index `from` on that carries a disconnect cause carries `cause`.
pub open spec fn causes_from(s: Seq<CcAction>, from: int, cause: DisconnectCause) -> bool {
    forall|i: int| from <= i < s.len() ==> #[trigger] action_cause(s[i]) is None || action_cause(s[i]) == Some(cause)
}

proof fn lemma_causes_cat(a: Seq<CcAction>, b: Seq<CcAction>, cause: DisconnectCause)
    requires
        causes_from(a, 0, cause),
        causes_from(b, 0, cause),
    ensures
        causes_from(a + b, 0, cause),
{
    assert forall|i: int| 0 <= i < (a + b).len() implies #[trigger] action_cause((a + b)[i]) is None || action_cause((a + b)[i])
        == Some(cause) by {
        if i < a.len() {
            assert(action_cause(a[i]) is None || action_cause(a[i]) == Some(cause));
        } else {
            assert(action_cause(b[i - a.len()]) is None || action_cause(b[i - a.len()]) == Some(cause));
        }
    }
}

proof fn lemma_causes_repeat(s: Seq<CcAction>, n: nat, cause: DisconnectCause)
    requires
        causes_from(s, 0, cause),
    ensures
        causes_from(repeat_actions(s, n), 0, cause),
    decreases n,
{
    if n > 0 {
        lemma_causes_repeat(s, (n - 1) as nat, cause);
        lemma_causes_cat(repeat_actions(s, (n - 1) as nat), s, cause);
    }
}

/// Releasing an individual call with `cause` sends no other cause.
proof fn lemma_individual_release_causes(
    call_id: u16,
    c: IndividualCall,
    cause: DisconnectCause,
    cr1: Result<CmceCircuit, CircuitErr>,
    cr2: Result<CmceCircuit, CircuitErr>,
    telemetry: bool,
)
    ensures
        causes_from(individual_release_actions(call_id, c, cause, cr1, cr2, telemetry), 0, cause),
{
    let legs = leg_releases(call_id, c, cause);
    assert(causes_from(legs, 0, cause)) by {
        let a = if !c.calling_over_brew {
            seq![CcAction::DRelease { call_id, to: c.calling_addr, cause, ts: if c.state == IndividualCallState::Active { Some(c.calling_ts) } else { None } }]
        } else {
            Seq::empty()
        };
        let b = if !c.called_over_brew {
            seq![CcAction::DRelease { call_id, to: c.called_addr, cause, ts: if c.state == IndividualCallState::Active { Some(c.called_ts) } else { None } }]
        } else {
            Seq::empty()
        };
        assert(causes_from(a, 0, cause)) by {
            if !c.calling_over_brew {
                assert(action_cause(a[0]) == Some(cause));
            }
        }
        assert(causes_from(b, 0, cause)) by {
            if !c.called_over_brew {
                assert(action_cause(b[0]) == Some(cause));
            }
        }
        lemma_causes_cat(a, b, cause);
        assert(legs =~= a + b);
    }
    let n: nat = if c.state == IndividualCallState::Active { 2 } else { 3 };
    lemma_causes_repeat(legs, n, cause);
    let p1 = repeat_actions(legs, n);
    let p2 = close_signal(cr1);
    let p3 = seq![CcAction::CallEnded { dest: ControlDest::Umac, call_id, ts: c.calling_ts }];
    let p4 = if c.called_ts != c.calling_ts {
        close_signal(cr2) + seq![CcAction::CallEnded { dest: ControlDest::Umac, call_id, ts: c.called_ts }]
    } else {
        Seq::empty()
    };
    let p5 = if (c.called_over_brew || c.calling_over_brew) && cause != DisconnectCause::SwmiRequestedDisconnection
        && c.brew_uuid is Some {
        seq![CcAction::NetworkCircuitRelease { brew_uuid: c.brew_uuid.unwrap(), cause }]
    } else {
        Seq::empty()
    };
    let p6 = if telemetry {
        seq![CcAction::IndividualCallEnded { call_id }]
    } else {
        Seq::empty()
    };
    assert(causes_from(p2, 0, cause)) by {
        if cr1 is Ok {
            assert(action_cause(p2[0]) is None);
        }
    }
    assert(causes_from(p3, 0, cause)) by {
        assert(action_cause(p3[0]) is None);
    }
    assert(causes_from(p4, 0, cause)) by {
        if c.called_ts != c.calling_ts {
            let x = close_signal(cr2);
            let y = seq![CcAction::CallEnded { dest: ControlDest::Umac, call_id, ts: c.called_ts }];
            assert(causes_from(x, 0, cause)) by {
                if cr2 is Ok {
                    assert(action_cause(x[0]) is None);
                }
            }
            assert(action_cause(y[0]) is None);
            lemma_causes_cat(x, y, cause);
        }
    }
    assert(causes_from(p5, 0, cause)) by {
        if p5.len() > 0 {
            assert(action_cause(p5[0]) == Some(cause));
        }
    }
    assert(causes_from(p6, 0, cause)) by {
        if telemetry {
            assert(action_cause(p6[0]) is None);
        }
    }
    lemma_causes_cat(p1, p2, cause);
    lemma_causes_cat(p1 + p2, p3, cause);
    lemma_causes_cat(p1 + p2 + p3, p4, cause);
    lemma_causes_cat(p1 + p2 + p3 + p4, p5, cause);
    lemma_causes_cat(p1 + p2 + p3 + p4 + p5, p6, cause);
    assert(individual_release_actions(call_id, c, cause, cr1, cr2, telemetry) =~= p1 + p2 + p3 + p4 + p5 + p6);
}

/// Releasing a group call with `cause` sends no other cause.
proof fn lemma_group_release_causes(
    call_id: u16,
    c: ActiveCall,
    dest: TetraAddress,
    cause: DisconnectCause,
    cr: Result<CmceCircuit, CircuitErr>,
    routable: bool,
    telemetry: bool,
)
    ensures
        causes_from(group_release_actions(call_id, c, dest, cause, cr, routable, telemetry), 0, cause),
{
    let a = group_release_actions(call_id, c, dest, cause, cr, routable, telemetry);
    lemma_release_actions_kind(call_id, c, dest, cause, cr, routable, telemetry);
    assert forall|i: int| 0 <= i < a.len() implies #[trigger] action_cause(a[i]) is None || action_cause(a[i]) == Some(cause) by {
        assert(is_group_release_action(a[i]));
        if i > 0 && a[i] is DRelease {
            let p1 = seq![CcAction::DRelease { call_id, to: dest, cause, ts: None }];
            let rest = close_signal(cr) + seq![CcAction::CallEnded { dest: ControlDest::Umac, call_id, ts: c.ts }]
                + brew_release_notice(c, call_id, routable) + if telemetry {
                seq![CcAction::GroupCallEnded { call_id }]
            } else {
                Seq::<CcAction>::empty()
            };
            assert(a =~= p1 + rest);
            assert(a[i] == rest[i - 1]);
            assert(!(rest[i - 1] is DRelease));
        }
    }
}

impl CcBsSubentity {
    /// After `individual_released` with `cause`, every cause the new actions carry is `cause`.
    pub proof fn lemma_individual_released_causes(self, new: Self, q0: Seq<CcAction>, q1: Seq<CcAction>, call_id: u16, cause: DisconnectCause)
        requires
            self.individual_released(new, q0, q1, call_id, cause),
        ensures
            q0.is_prefix_of(q1),
            causes_from(q1, q0.len() as int, cause),
    {
        if self.individual().contains_key(call_id) {
            let c = self.individual()[call_id];
            let (cr1, cr2, mid) = choose|cr1: Result<CmceCircuit, CircuitErr>, cr2: Result<CmceCircuit, CircuitErr>, mid: CircuitMgr|
                circuit_closed_on_ts(self.circuit_mgr(), mid, Direction::Both, c.calling_ts, cr1) && (if c.called_ts
                    != c.calling_ts {
                    circuit_closed_on_ts(mid, new.circuit_mgr(), Direction::Both, c.called_ts, cr2)
                } else {
                    new.circuit_mgr() == mid
                }) && q1 =~= q0 + individual_release_actions(call_id, c, cause, cr1, cr2, self.spec_telemetry());
            let seg = individual_release_actions(call_id, c, cause, cr1, cr2, self.spec_telemetry());
            lemma_individual_release_causes(call_id, c, cause, cr1, cr2, self.spec_telemetry());
            assert forall|i: int| q0.len() <= i < q1.len() implies #[trigger] action_cause(q1[i]) is None || action_cause(q1[i])
                == Some(cause) by {
                assert(q1[i] == seg[i - q0.len()]);
                assert(action_cause(seg[i - q0.len()]) is None || action_cause(seg[i - q0.len()]) == Some(cause));
            }
            assert(q1.subrange(0, q0.len() as int) =~= q0);
        } else {
            assert(q1.subrange(0, q0.len() as int) =~= q0);
        }
    }

    /// After `group_released` with `cause`, every cause the new actions carry is `cause`.
    pub proof fn lemma_group_released_causes(self, new: Self, q0: Seq<CcAction>, q1: Seq<CcAction>, call_id: u16, cause: DisconnectCause)
        requires
            self.group_released(new, q0, q1, call_id, cause),
        ensures
            q0.is_prefix_of(q1),
            causes_from(q1, q0.len() as int, cause),
    {
        if self.setups().contains_key(call_id) {
            let dest = self.setups()[call_id];
            if self.calls().contains_key(call_id) {
                let c = self.calls()[call_id];
                let cr = choose|cr: Result<CmceCircuit, CircuitErr>|
                    circuit_closed_on_ts(self.circuit_mgr(), new.circuit_mgr(), Direction::Both, c.ts, cr) && q1 == q0
                        + group_release_actions(call_id, c, dest, cause, cr, self.routable(c.dest_gssi), self.spec_telemetry());
                let seg = group_release_actions(call_id, c, dest, cause, cr, self.routable(c.dest_gssi), self.spec_telemetry());
                lemma_group_release_causes(call_id, c, dest, cause, cr, self.routable(c.dest_gssi), self.spec_telemetry());
                assert forall|i: int| q0.len() <= i < q1.len() implies #[trigger] action_cause(q1[i]) is None || action_cause(q1[i])
                    == Some(cause) by {
                    assert(q1[i] == seg[i - q0.len()]);
                    assert(action_cause(seg[i - q0.len()]) is None || action_cause(seg[i - q0.len()]) == Some(cause));
                }
            } else {
                assert(action_cause(q1[q0.len() as int]) == Some(cause));
            }
        }
        assert(q1.subrange(0, q0.len() as int) =~= q0);
    }
}

/// Individual calls of `m` in which `issi` is the calling or the called party.
pub open spec fn calls_involving(m: Map<u16, IndividualCall>, issi: u32) -> Set<u16> {
    m.dom().filter(|id: u16| m[id].calling_addr.ssi == issi || m[id].called_addr.ssi == issi)
}

impl CcBsSubentity {
    /// `new` and `q1` are `self` and `q0` after releasing individual call `call_id`.
    pub open spec fn individual_released(self, new: Self, q0: Seq<CcAction>, q1: Seq<CcAction>, call_id: u16, cause: DisconnectCause) -> bool {
        &&& !self.individual().contains_key(call_id) ==> new.individual() =~= self.individual()
                    && new.setups() =~= self.setups() && new.circuit_mgr() == self.circuit_mgr()
                    && q1 =~= q0
        &&& self.individual().contains_key(call_id) ==> {
                    let c = self.individual()[call_id];
                    &&& new.individual() =~= self.individual().remove(call_id)
                    &&& new.setups() =~= self.setups().remove(call_id)
                    &&& exists|cr1: Result<CmceCircuit, CircuitErr>, cr2: Result<CmceCircuit, CircuitErr>, mid: CircuitMgr|
                        circuit_closed_on_ts(self.circuit_mgr(), mid, Direction::Both, c.calling_ts, cr1) && (if c.called_ts
                            != c.calling_ts {
                            circuit_closed_on_ts(mid, new.circuit_mgr(), Direction::Both, c.called_ts, cr2)
                        } else {
                            new.circuit_mgr() == mid
                        }) && q1 =~= q0 + individual_release_actions(call_id, c, cause, cr1, cr2, self.spec_telemetry())
                }
    }

    /// `new`, `q1` and `r` follow from `self` and `q0` when the called party of `call_id` alerts.
    pub open spec fn alert_handled(self, new: Self, q0: Seq<CcAction>, q1: Seq<CcAction>, call_id: u16, called_handle_ctx: Option<(u32, u32, u32)>, setup_timeout: CallTimeoutSetupPhase, r: Result<(), IndividualTransitionError>) -> bool {
        &&& !self.individual().contains_key(call_id) ==> r == Err::<(), IndividualTransitionError>(
                    IndividualTransitionError::UnknownCall(call_id),
                ) && new.individual() =~= self.individual() && q1 =~= q0
        &&& self.individual().contains_key(call_id) ==> {
                    let c = self.individual()[call_id];
                    let bound = match called_handle_ctx {
                        Some((h, l, e)) => if c.called_handle is None {
                            IndividualCall { called_handle: Some(h), called_link_id: Some(l), called_endpoint_id: Some(e), ..c }
                        } else {
                            c
                        },
                        None => c,
                    };
                    &&& !individual_transition_allowed(c.state, IndividualEvent::Alert) ==> r == Err::<(), IndividualTransitionError>(
                        IndividualTransitionError::InvalidTransition { call_id, state: c.state, event: IndividualEvent::Alert },
                    ) && new.individual() =~= self.individual() && q1 =~= q0
                    &&& individual_transition_allowed(c.state, IndividualEvent::Alert) && c.calling_over_brew
                        && c.brew_uuid is None ==> r == Err::<(), IndividualTransitionError>(
                        IndividualTransitionError::MissingBrewUuid(call_id),
                    ) && new.individual() =~= self.individual().insert(call_id, bound) && q1 =~= q0
                    &&& individual_transition_allowed(c.state, IndividualEvent::Alert) && !(c.calling_over_brew
                        && c.brew_uuid is None) ==> {
                        &&& r is Ok
                        &&& new.individual() =~= self.individual().insert(
                            call_id,
                            IndividualCall {
                                state: if c.state == IndividualCallState::CallSetupPending || c.state
                                    == IndividualCallState::IncomingSetupPending {
                                    IndividualCallState::IncomingAlerting
                                } else {
                                    c.state
                                },
                                setup_timer_started: Some(self.spec_dltime()),
                                setup_timeout: Some(setup_timeout),
                                ..bound
                            },
                        )
                        &&& q1 =~= q0 + (if c.calling_over_brew {
                            seq![CcAction::NetworkCircuitAlert { brew_uuid: c.brew_uuid.unwrap() }]
                        } else if !spec_is_alerted(c.state) {
                            seq![
                                CcAction::DAlert {
                                    call_id,
                                    to: c.calling_addr,
                                    handle: c.calling_handle,
                                    link_id: c.calling_link_id,
                                    endpoint_id: c.calling_endpoint_id,
                                    simplex_duplex: c.simplex_duplex,
                                    setup_timeout,
                                },
                            ]
                        } else {
                            Seq::<CcAction>::empty()
                        })
                    }
                }
    }

    /// `new`, `q1` and `r` follow from `self` and `q0` when a network speaker takes group call `call_id`.
    pub open spec fn speaker_changed(self, new: Self, q0: Seq<CcAction>, q1: Seq<CcAction>, call_id: u16, brew_uuid: u128, source_issi: u32, r: Result<(), GroupTransitionError>) -> bool {
        &&& !self.calls().contains_key(call_id) ==> r == Err::<(), GroupTransitionError>(
                    GroupTransitionError::UnknownCall(call_id),
                ) && new.calls() =~= self.calls() && q1 =~= q0
        &&& self.calls().contains_key(call_id) ==> {
                    let c = self.calls()[call_id];
                    let g = floor_granted(c, source_issi, None);
                    &&& r is Ok
                    &&& new.calls() =~= self.calls().insert(
                        call_id,
                        ActiveCall {
                            brew_uuid: Some(brew_uuid),
                            origin: match c.origin {
                                CallOrigin::Network { .. } => CallOrigin::Network { brew_uuid },
                                CallOrigin::Local { .. } => c.origin,
                            },
                            ..g
                        },
                    )
                    &&& q1 =~= q0 + seq![
                        CcAction::DTxGrantedGroup { call_id, transmitting_issi: source_issi, to: group_addr(c.dest_gssi), ts: c.ts },
                        CcAction::FloorGranted { dest: ControlDest::Umac, call_id, source_issi, dest_gssi: c.dest_gssi, ts: c.ts },
                        CcAction::NetworkCallReady { brew_uuid, call_id, ts: c.ts, usage: c.usage },
                    ]
                }
    }

    /// `new`, `q1` and `r` follow from `self` and `q0` when the network speaker of group call `call_id` stops.
    pub open spec fn network_speaker_ended(self, new: Self, q0: Seq<CcAction>, q1: Seq<CcAction>, call_id: u16, r: Result<(), GroupTransitionError>) -> bool {
        &&& !self.calls().contains_key(call_id) ==> r == Err::<(), GroupTransitionError>(
                    GroupTransitionError::UnknownCall(call_id),
                ) && new.calls() =~= self.calls() && new.setups() =~= self.setups()
                    && new.circuit_mgr() == self.circuit_mgr() && q1 =~= q0
        &&& self.calls().contains_key(call_id) ==> {
                    let c = self.calls()[call_id];
                    &&& r is Ok
                    &&& c.tx_active ==> new.calls() =~= self.calls().insert(
                        call_id,
                        ActiveCall { tx_active: false, hangtime_start: Some(self.spec_dltime()), brew_uuid: None, ..c },
                    ) && new.setups() =~= self.setups() && new.circuit_mgr() == self.circuit_mgr()
                        && q1 =~= q0 + seq![
                        CcAction::DTxCeasedGroup { call_id, to: group_addr(c.dest_gssi), ts: c.ts },
                        CcAction::FloorReleased { dest: ControlDest::Umac, call_id, ts: c.ts },
                    ]
                    &&& !c.tx_active && self.setups().contains_key(call_id) ==> new.calls() =~= self.calls().remove(call_id) && new.setups() =~= self.setups().remove(call_id) && exists|
                        cr: Result<CmceCircuit, CircuitErr>,
                    |
                        circuit_closed_on_ts(self.circuit_mgr(), new.circuit_mgr(), Direction::Both, c.ts, cr)
                            && q1 =~= q0 + group_release_actions(
                            call_id,
                            c,
                            self.setups()[call_id],
                            DisconnectCause::SwmiRequestedDisconnection,
                            cr,
                            self.routable(c.dest_gssi),
                            self.spec_telemetry(),
                        )
                    &&& !c.tx_active && !self.setups().contains_key(call_id) ==> new.calls() =~= self.calls()
                        && new.setups() =~= self.setups() && new.circuit_mgr() == self.circuit_mgr()
                        && q1 =~= q0
                }
    }
}

impl CcBsSubentity {
    fn push_leg_releases(queue: &mut Vec<CcAction>, call_id: u16, c: &IndividualCall, cause: DisconnectCause)
        ensures
            final(queue)@ == old(queue)@ + leg_releases(call_id, *c, cause),
    {
        let active = c.is_active();
        if !c.calling_over_brew {
            queue.push(CcAction::DRelease { call_id, to: c.calling_addr, cause, ts: if active { Some(c.calling_ts) } else { None } });
        }
        if !c.called_over_brew {
            queue.push(CcAction::DRelease { call_id, to: c.called_addr, cause, ts: if active { Some(c.called_ts) } else { None } });
        }
        assert(queue@ =~= old(queue)@ + leg_releases(call_id, *c, cause));
    }

    /// Release an individual call: D-RELEASE to its local legs, close the circuits of both
    /// legs, tell UMAC (and Brew), and forget it. Nothing happens for an unknown call.
    fn push_release_rounds(queue: &mut Vec<CcAction>, call_id: u16, c: &IndividualCall, cause: DisconnectCause)
        ensures
            final(queue)@ == old(queue)@ + repeat_actions(
                leg_releases(call_id, *c, cause),
                if c.state == IndividualCallState::Active { 2 } else { 3 },
            ),
    {
        let ghost q0 = queue@;
        let rounds: usize = if c.is_active() { 2 } else { 3 };
        let mut r: usize = 0;
        while r < rounds
            invariant
                r <= rounds,
                rounds == (if c.state == IndividualCallState::Active { 2usize } else { 3usize }),
                queue@ == q0 + repeat_actions(leg_releases(call_id, *c, cause), r as nat),
            decreases rounds - r,
        {
            Self::push_leg_releases(queue, call_id, c, cause);
            r = r + 1;
            assert(queue@ =~= q0 + repeat_actions(leg_releases(call_id, *c, cause), r as nat));
        }
    }

    /// Close the circuit on a call leg's timeslot and tell UMAC the call ended there.
    fn close_leg(&mut self, queue: &mut Vec<CcAction>, call_id: u16, ts: u8) -> (cr: Result<CmceCircuit, CircuitErr>)
        requires
            old(self).wf(),
        ensures
            final(self).wf(),
            circuit_closed_on_ts(old(self).circuits, final(self).circuits, Direction::Both, ts, cr),
            final(queue)@ == old(queue)@ + close_signal(cr) + seq![CcAction::CallEnded { dest: ControlDest::Umac, call_id, ts }],
            final(self).subscriber_groups@ == old(self).subscriber_groups@,
            final(self).group_listeners@ == old(self).group_listeners@,
            final(self).active_calls@ == old(self).active_calls@,
            final(self).individual_calls@ == old(self).individual_calls@,
            final(self).cached_setups@ == old(self).cached_setups@,
            final(self).config == old(self).config,
            final(self).dltime == old(self).dltime,
            final(self).telemetry == old(self).telemetry,
    {
        let cr = self.circuits.close_circuit(Direction::Both, ts);
        match cr {
            Ok(circuit) => queue.push(CcAction::CircuitClose { dir: circuit.direction, ts: circuit.ts }),
            Err(_) => {},
        }
        queue.push(CcAction::CallEnded { dest: ControlDest::Umac, call_id, ts });
        assert(queue@ =~= old(queue)@ + close_signal(cr) + seq![CcAction::CallEnded { dest: ControlDest::Umac, call_id, ts }]);
        cr
    }

    #[verifier::rlimit(60)]
    #[verifier::spinoff_prover]
    pub fn release_individual_call(&mut self, queue: &mut Vec<CcAction>, call_id: u16, cause: DisconnectCause)
        requires
            old(self).wf(),
        ensures
            final(self).wf(),
            final(self).subscribers() == old(self).subscribers(),
            final(self).listeners() == old(self).listeners(),
            final(self).calls() == old(self).calls(),
            final(self).routing() == old(self).routing(),
            final(self).spec_call_timeout_secs() == old(self).spec_call_timeout_secs(),
            final(self).spec_telemetry() == old(self).spec_telemetry(),
            final(self).spec_dltime() == old(self).spec_dltime(),
                        old(self).individual_released(*final(self), old(queue)@, final(queue)@, call_id, cause),

    {
        let c = match self.individual_calls.remove(&call_id) {
            Some(c) => c,
            None => return,
        };
        let ghost q0 = queue@;
        Self::push_release_rounds(queue, call_id, &c, cause);
        let ghost q1 = queue@;
        let cr1 = self.close_leg(queue, call_id, c.calling_ts);
        let ghost mid = self.circuits;
        let ghost q2 = queue@;
        let mut cr2: Result<CmceCircuit, CircuitErr> = Err(CircuitErr::CircuitNotActive);
        if c.called_ts != c.calling_ts {
            cr2 = self.close_leg(queue, call_id, c.called_ts);
        }
        let ghost q3 = queue@;
        self.cached_setups.remove(&call_id);
        if (c.called_over_brew || c.calling_over_brew) && cause != DisconnectCause::SwmiRequestedDisconnection {
            match c.brew_uuid {
                Some(brew_uuid) => queue.push(CcAction::NetworkCircuitRelease { brew_uuid, cause }),
                None => {},
            }
        }
        let ghost q4 = queue@;
        if self.telemetry {
            queue.push(CcAction::IndividualCallEnded { call_id });
        }
        proof {
            let p3 = if c.called_ts != c.calling_ts {
                close_signal(cr2) + seq![CcAction::CallEnded { dest: ControlDest::Umac, call_id, ts: c.called_ts }]
            } else {
                Seq::<CcAction>::empty()
            };
            let p4 = if (c.called_over_brew || c.calling_over_brew) && cause != DisconnectCause::SwmiRequestedDisconnection
                && c.brew_uuid is Some {
                seq![CcAction::NetworkCircuitRelease { brew_uuid: c.brew_uuid.unwrap(), cause }]
            } else {
                Seq::<CcAction>::empty()
            };
            assert(q3 =~= q2 + p3);
            assert(q4 =~= q3 + p4);
            assert(self.telemetry == old(self).spec_telemetry());
            assert(queue@ =~= q0 + individual_release_actions(call_id, c, cause, cr1, cr2, old(self).spec_telemetry()));
            assert(self.individual_calls@ =~= old(self).individual_calls@.remove(call_id));
            assert(self.cached_setups@ =~= old(self).cached_setups@.remove(call_id));
            assert(circuit_closed_on_ts(old(self).circuit_mgr(), mid, Direction::Both, c.calling_ts, cr1));
            if c.called_ts != c.calling_ts {
                assert(circuit_closed_on_ts(mid, self.circuit_mgr(), Direction::Both, c.called_ts, cr2));
            } else {
                assert(self.circuit_mgr() == mid);
            }
            assert(c == old(self).individual()[call_id]);
        }
    }

    /// Force-deregister an MS: release its individual calls, forget its affiliations and ask MM
    /// to deregister it. Returns whether the MS was known.
    pub fn kick_ms(&mut self, queue: &mut Vec<CcAction>, issi: u32) -> (r: bool)
        requires
            old(self).wf(),
        ensures
            final(self).wf(),
            r == old(self).subscribers().contains_key(issi),
            final(self).calls() == old(self).calls(),
            final(self).routing() == old(self).routing(),
            final(self).spec_call_timeout_secs() == old(self).spec_call_timeout_secs(),
            final(self).spec_telemetry() == old(self).spec_telemetry(),
            final(self).spec_dltime() == old(self).spec_dltime(),
            !r ==> *final(self) == *old(self) && final(queue)@ == old(queue)@,
            r ==> {
                let gone = calls_involving(old(self).individual(), issi);
                &&& final(self).subscribers() == old(self).subscribers().remove(issi)
                &&& final(self).individual() == old(self).individual().remove_keys(gone)
                &&& final(self).setups() == old(self).setups().remove_keys(gone)
                &&& final(queue)@.len() > old(queue)@.len()
                &&& final(queue)@.take(old(queue)@.len() as int) == old(queue)@
                &&& final(queue)@.last() == CcAction::DeregisterSubscriber { issi }
            },
    {
        if !self.subscriber_groups.contains_key(&issi) {
            assert(self.subscriber_groups@.dom() =~= self.subscribers().dom());
            return false;
        }
        let ghost ind0 = self.individual_calls@;
        let ghost setups0 = self.cached_setups@;
        let ghost q0 = queue@;
        let ghost gone = calls_involving(ind0, issi);
        let ids = map_keys(&self.individual_calls);
        let mut rel: Vec<u16> = Vec::new();
        let mut i: usize = 0;
        while i < ids.len()
            invariant
                self.individual_calls@ == ind0,
                gone == calls_involving(ind0, issi),
                ids@.to_set() == ind0.dom(),
                ids@.no_duplicates(),
                i <= ids@.len(),
                forall|j: int| 0 <= j < rel@.len() ==> #[trigger] gone.contains(rel@[j]),
                forall|j: int| 0 <= j < rel@.len() ==> exists|w: int| 0 <= w < i && ids@[w] == #[trigger] rel@[j],
                forall|a: int, b: int| 0 <= a < b < rel@.len() ==> rel@[a] != rel@[b],
                forall|w: int| 0 <= w < i && gone.contains(#[trigger] ids@[w]) ==> rel@.contains(ids@[w]),
            decreases ids@.len() - i,
        {
            let id = ids[i];
            assert(ids@.to_set().contains(id));
            let c = *self.individual_calls.get(&id).unwrap();
            let ghost r0 = rel@;
            assert(gone.contains(id) == (c.calling_addr.ssi == issi || c.called_addr.ssi == issi));
            if c.calling_addr.ssi == issi || c.called_addr.ssi == issi {
                proof {
                    assert forall|j: int| 0 <= j < rel@.len() implies rel@[j] != id by {
                        let w = choose|w: int| 0 <= w < i && ids@[w] == #[trigger] rel@[j];
                        assert(ids@[w] != ids@[i as int]);
                    }
                }
                rel.push(id);
            }
            proof {
                assert forall|w: int| 0 <= w < i + 1 && gone.contains(#[trigger] ids@[w]) implies rel@.contains(ids@[w]) by {
                    if w == i {
                        assert(rel@.len() == r0.len() + 1);
                        assert(rel@[rel@.len() - 1] == ids@[w]);
                    } else {
                        let j = choose|j: int| 0 <= j < r0.len() && r0[j] == ids@[w];
                        assert(rel@[j] == r0[j]);
                    }
                }
                assert forall|j: int| 0 <= j < rel@.len() implies exists|w: int| 0 <= w < i + 1 && ids@[w] == #[trigger] rel@[j] by {
                    if j < r0.len() {
                        assert(rel@[j] == r0[j]);
                        let w = choose|w: int| 0 <= w < i && ids@[w] == #[trigger] r0[j];
                    } else {
                        assert(ids@[i as int] == rel@[j]);
                    }
                }
            }
            i = i + 1;
        }
        let mut k: usize = 0;
        while k < rel.len()
            invariant
                self.wf(),
                self.subscribers() == old(self).subscribers(),
                self.listeners() == old(self).listeners(),
                self.calls() == old(self).calls(),
                self.routing() == old(self).routing(),
                self.spec_call_timeout_secs() == old(self).spec_call_timeout_secs(),
                self.spec_telemetry() == old(self).spec_telemetry(),
                self.spec_dltime() == old(self).spec_dltime(),
                k <= rel@.len(),
                gone == calls_involving(ind0, issi),
                forall|j: int| 0 <= j < rel@.len() ==> #[trigger] gone.contains(rel@[j]),
                forall|a: int, b: int| 0 <= a < b < rel@.len() ==> rel@[a] != rel@[b],
                self.individual() == ind0.remove_keys(rel@.take(k as int).to_set()),
                self.setups() == setups0.remove_keys(rel@.take(k as int).to_set()),
                q0.len() <= queue@.len(),
                queue@.take(q0.len() as int) == q0,
            decreases rel@.len() - k,
        {
            let id = rel[k];
            let ghost qa = queue@;
            proof {
                let a = rel@.take(k as int);
                let b = rel@.take(k + 1);
                assert forall|x: u16| b.to_set().contains(x) == a.to_set().insert(id).contains(x) by {
                    if b.contains(x) {
                        let w = choose|w: int| #![trigger b[w]] 0 <= w < b.len() && b[w] == x;
                        if w < a.len() {
                            assert(a[w] == x);
                        }
                    }
                    if a.contains(x) {
                        let w = choose|w: int| #![trigger a[w]] 0 <= w < a.len() && a[w] == x;
                        assert(b[w] == x);
                    }
                    if x == id {
                        assert(b[k as int] == x);
                    }
                }
                assert(!a.to_set().contains(id)) by {
                    if a.contains(id) {
                        let w = choose|w: int| #![trigger a[w]] 0 <= w < a.len() && a[w] == id;
                        assert(rel@[w] == rel@[k as int]);
                    }
                }
                assert(gone.contains(rel@[k as int]));
                assert(ind0.contains_key(id));
                assert(!rel@.take(k as int).to_set().contains(id));
                assert(self.individual().contains_key(id));
            }
            self.release_individual_call(queue, id, DisconnectCause::UserRequestedDisconnection);
            proof {
                let b = rel@.take(k + 1);
                assert(self.individual() =~= ind0.remove_keys(b.to_set()));
                assert(self.setups() =~= setups0.remove_keys(b.to_set()));
                let c = ind0[id];
                let (cr1, cr2, mid) = choose|cr1: Result<CmceCircuit, CircuitErr>, cr2: Result<CmceCircuit, CircuitErr>, mid: CircuitMgr|
                    circuit_closed_on_ts(old(self).circuit_mgr(), mid, Direction::Both, c.calling_ts, cr1) && (if c.called_ts
                        != c.calling_ts {
                        circuit_closed_on_ts(mid, self.circuit_mgr(), Direction::Both, c.called_ts, cr2)
                    } else {
                        self.circuit_mgr() == mid
                    }) && queue@ == qa + individual_release_actions(
                        id,
                        c,
                        DisconnectCause::UserRequestedDisconnection,
                        cr1,
                        cr2,
                        old(self).spec_telemetry(),
                    );
                assert(queue@.take(q0.len() as int) =~= q0);
            }
            k = k + 1;
        }
        proof {
            assert(rel@.take(rel@.len() as int) =~= rel@);
            assert(rel@.to_set() =~= gone) by {
                assert forall|x: u16| gone.contains(x) implies rel@.to_set().contains(x) by {
                    assert(ids@.to_set().contains(x));
                    let w = choose|w: int| 0 <= w < ids@.len() && ids@[w] == x;
                    assert(gone.contains(ids@[w]));
                }
            }
        }
        let ghost l0 = self.group_listeners@;
        let ghost sg0 = self.subscribers();
        assert(sg0.dom() =~= self.subscriber_groups@.dom());
        match self.subscriber_groups.remove(&issi) {
            Some(existing) => {
                let gs = set_elements(&existing);
                proof {
                    assert(self.subscribers() =~= sg0.remove(issi));
                    assert forall|h: u32| #[trigger] listener_ok(self.group_listeners@, self.subscribers(), h, pending_delta(gs@, h, false)) by {
                        assert(sg0.remove(issi) =~= self.subscribers().remove(issi));
                        assert(listener_ok(l0, sg0, h, 0));
                        lemma_listener_shift(l0, sg0, self.subscribers(), issi, h);
                        assert(gs@.to_set().contains(h) == gs@.contains(h));
                    }
                }
                self.apply_listener_deltas(&gs, false);
            },
            None => {},
        }
        queue.push(CcAction::DeregisterSubscriber { issi });
        assert(queue@.take(q0.len() as int) =~= q0);
        true
    }

    fn validate_individual_transition(call_id: u16, state: IndividualCallState, event: IndividualEvent) -> (r: Result<
        (),
        IndividualTransitionError,
    >)
        ensures
            r == (if individual_transition_allowed(state, event) {
                Ok::<(), IndividualTransitionError>(())
            } else {
                Err(IndividualTransitionError::InvalidTransition { call_id, state, event })
            }),
    {
        let allowed = match event {
            IndividualEvent::CreateSetup => false,
            IndividualEvent::Alert => match state {
                IndividualCallState::CallSetupPending
                | IndividualCallState::IncomingSetupPending
                | IndividualCallState::IncomingAlerting => true,
                _ => false,
            },
            _ => match state {
                IndividualCallState::Active => false,
                _ => true,
            },
        };
        if allowed {
            Ok(())
        } else {
            Err(IndividualTransitionError::InvalidTransition { call_id, state, event })
        }
    }

    /// Record a new individual call in a set-up state.
    pub fn fsm_individual_create_setup_call(&mut self, call_id: u16, call: IndividualCall) -> (r: Result<
        (),
        IndividualTransitionError,
    >)
        requires
            old(self).wf(),
        ensures
            final(self).wf(),
            final(self).subscribers() == old(self).subscribers(),
            final(self).listeners() == old(self).listeners(),
            final(self).calls() == old(self).calls(),
            final(self).setups() == old(self).setups(),
            final(self).circuit_mgr() == old(self).circuit_mgr(),
            final(self).routing() == old(self).routing(),
            final(self).spec_call_timeout_secs() == old(self).spec_call_timeout_secs(),
            final(self).spec_telemetry() == old(self).spec_telemetry(),
            final(self).spec_dltime() == old(self).spec_dltime(),
            old(self).individual().contains_key(call_id) ==> r == Err::<(), IndividualTransitionError>(
                IndividualTransitionError::DuplicateCall(call_id),
            ),
            !old(self).individual().contains_key(call_id) && !(call.state == IndividualCallState::CallSetupPending
                || call.state == IndividualCallState::IncomingSetupPending) ==> r == Err::<(), IndividualTransitionError>(
                IndividualTransitionError::InvalidTransition { call_id, state: call.state, event: IndividualEvent::CreateSetup },
            ),
            r is Ok ==> final(self).individual() == old(self).individual().insert(call_id, call),
            r is Err ==> final(self).individual() == old(self).individual(),
            r is Ok <==> !old(self).individual().contains_key(call_id) && (call.state == IndividualCallState::CallSetupPending
                || call.state == IndividualCallState::IncomingSetupPending),
    {
        if self.individual_calls.contains_key(&call_id) {
            return Err(IndividualTransitionError::DuplicateCall(call_id));
        }
        match call.state {
            IndividualCallState::CallSetupPending | IndividualCallState::IncomingSetupPending => {},
            _ => {
                return Err(
                    IndividualTransitionError::InvalidTransition { call_id, state: call.state, event: IndividualEvent::CreateSetup },
                );
            },
        }
        self.individual_calls.insert(call_id, call);
        Ok(())
    }

    /// Bind the called party's link context to a call being set up, once.
    pub fn fsm_individual_bind_called_context(&mut self, call_id: u16, handle: u32, link_id: u32, endpoint_id: u32) -> (r:
        Result<(), IndividualTransitionError>)
        requires
            old(self).wf(),
        ensures
            final(self).wf(),
            final(self).subscribers() == old(self).subscribers(),
            final(self).listeners() == old(self).listeners(),
            final(self).calls() == old(self).calls(),
            final(self).setups() == old(self).setups(),
            final(self).circuit_mgr() == old(self).circuit_mgr(),
            final(self).routing() == old(self).routing(),
            final(self).spec_call_timeout_secs() == old(self).spec_call_timeout_secs(),
            final(self).spec_telemetry() == old(self).spec_telemetry(),
            final(self).spec_dltime() == old(self).spec_dltime(),
            !old(self).individual().contains_key(call_id) ==> r == Err::<(), IndividualTransitionError>(
                IndividualTransitionError::UnknownCall(call_id),
            ) && final(self).individual() == old(self).individual(),
            old(self).individual().contains_key(call_id) ==> {
                let c = old(self).individual()[call_id];
                &&& r == (if individual_transition_allowed(c.state, IndividualEvent::BindCalledContext) {
                    Ok::<(), IndividualTransitionError>(())
                } else {
                    Err(
                        IndividualTransitionError::InvalidTransition {
                            call_id,
                            state: c.state,
                            event: IndividualEvent::BindCalledContext,
                        },
                    )
                })
                &&& final(self).individual() == (if r is Ok && c.called_handle is None {
                    old(self).individual().insert(
                        call_id,
                        IndividualCall {
                            called_handle: Some(handle),
                            called_link_id: Some(link_id),
                            called_endpoint_id: Some(endpoint_id),
                            ..c
                        },
                    )
                } else {
                    old(self).individual()
                })
            },
    {
        let c = match self.individual_calls.get(&call_id) {
            Some(c) => *c,
            None => return Err(IndividualTransitionError::UnknownCall(call_id)),
        };
        match Self::validate_individual_transition(call_id, c.state, IndividualEvent::BindCalledContext) {
            Ok(()) => {},
            Err(e) => return Err(e),
        }
        if c.called_handle.is_none() {
            let updated = IndividualCall {
                called_handle: Some(handle),
                called_link_id: Some(link_id),
                called_endpoint_id: Some(endpoint_id),
                ..c
            };
            self.individual_calls.insert(call_id, updated);
        }
        Ok(())
    }

    /// Mark that CONNECT_REQUEST went to Brew for a Brew-originated call; it then waits for
    /// the network's acknowledgement.
    pub fn fsm_individual_mark_connect_request_sent(&mut self, call_id: u16) -> (r: Result<(), IndividualTransitionError>)
        requires
            old(self).wf(),
        ensures
            final(self).wf(),
            final(self).subscribers() == old(self).subscribers(),
            final(self).listeners() == old(self).listeners(),
            final(self).calls() == old(self).calls(),
            final(self).setups() == old(self).setups(),
            final(self).circuit_mgr() == old(self).circuit_mgr(),
            final(self).routing() == old(self).routing(),
            final(self).spec_call_timeout_secs() == old(self).spec_call_timeout_secs(),
            final(self).spec_telemetry() == old(self).spec_telemetry(),
            final(self).spec_dltime() == old(self).spec_dltime(),
            !old(self).individual().contains_key(call_id) ==> r == Err::<(), IndividualTransitionError>(
                IndividualTransitionError::UnknownCall(call_id),
            ),
            old(self).individual().contains_key(call_id) ==> {
                let c = old(self).individual()[call_id];
                r == (if !individual_transition_allowed(c.state, IndividualEvent::MarkConnectRequestSent) {
                    Err::<(), IndividualTransitionError>(
                        IndividualTransitionError::InvalidTransition {
                            call_id,
                            state: c.state,
                            event: IndividualEvent::MarkConnectRequestSent,
                        },
                    )
                } else if !c.calling_over_brew {
                    Err(IndividualTransitionError::NotBrewOriginated(call_id))
                } else if c.connect_request_sent {
                    Err(IndividualTransitionError::ConnectRequestAlreadySent(call_id))
                } else {
                    Ok(())
                })
            },
            r is Err ==> final(self).individual() == old(self).individual(),
            r is Ok ==> final(self).individual() == old(self).individual().insert(
                call_id,
                IndividualCall {
                    connect_request_sent: true,
                    state: IndividualCallState::IncomingSetupWaitNetworkAck,
                    ..old(self).individual()[call_id]
                },
            ),
    {
        let c = match self.individual_calls.get(&call_id) {
            Some(c) => *c,
            None => return Err(IndividualTransitionError::UnknownCall(call_id)),
        };
        match Self::validate_individual_transition(call_id, c.state, IndividualEvent::MarkConnectRequestSent) {
            Ok(()) => {},
            Err(e) => return Err(e),
        }
        if !c.calling_over_brew {
            return Err(IndividualTransitionError::NotBrewOriginated(call_id));
        }
        if c.connect_request_sent {
            return Err(IndividualTransitionError::ConnectRequestAlreadySent(call_id));
        }
        let updated = IndividualCall { connect_request_sent: true, state: IndividualCallState::IncomingSetupWaitNetworkAck, ..c };
        self.individual_calls.insert(call_id, updated);
        Ok(())
    }

    /// The call is connected: it becomes active and its call timer starts now.
    pub fn fsm_individual_transition_to_active(&mut self, call_id: u16) -> (r: Result<(), IndividualTransitionError>)
        requires
            old(self).wf(),
        ensures
            final(self).wf(),
            final(self).subscribers() == old(self).subscribers(),
            final(self).listeners() == old(self).listeners(),
            final(self).calls() == old(self).calls(),
            final(self).setups() == old(self).setups(),
            final(self).circuit_mgr() == old(self).circuit_mgr(),
            final(self).routing() == old(self).routing(),
            final(self).spec_call_timeout_secs() == old(self).spec_call_timeout_secs(),
            final(self).spec_telemetry() == old(self).spec_telemetry(),
            final(self).spec_dltime() == old(self).spec_dltime(),
            !old(self).individual().contains_key(call_id) ==> r == Err::<(), IndividualTransitionError>(
                IndividualTransitionError::UnknownCall(call_id),
            ),
            old(self).individual().contains_key(call_id) ==> {
                let c = old(self).individual()[call_id];
                r == (if individual_transition_allowed(c.state, IndividualEvent::Connect) {
                    Ok::<(), IndividualTransitionError>(())
                } else {
                    Err(IndividualTransitionError::InvalidTransition { call_id, state: c.state, event: IndividualEvent::Connect })
                })
            },
            r is Err ==> final(self).individual() == old(self).individual(),
            r is Ok ==> final(self).individual() == old(self).individual().insert(
                call_id,
                IndividualCall {
                    state: IndividualCallState::Active,
                    setup_timer_started: None,
                    setup_timeout: None,
                    active_timer_started: Some(old(self).spec_dltime()),
                    connect_request_sent: false,
                    ..old(self).individual()[call_id]
                },
            ),
    {
        let mut c = match self.individual_calls.get(&call_id) {
            Some(c) => *c,
            None => return Err(IndividualTransitionError::UnknownCall(call_id)),
        };
        match Self::validate_individual_transition(call_id, c.state, IndividualEvent::Connect) {
            Ok(()) => {},
            Err(e) => return Err(e),
        }
        c.activate(self.dltime);
        self.individual_calls.insert(call_id, c);
        Ok(())
    }

    /// The called party is alerting: bind its link context when given, tell the caller (D-ALERT
    /// once, or Brew for a Brew-originated call) and start the set-up timer.
    #[verifier::rlimit(40)]
    pub fn fsm_individual_on_alert(
        &mut self,
        queue: &mut Vec<CcAction>,
        call_id: u16,
        called_handle_ctx: Option<(u32, u32, u32)>,
        setup_timeout: CallTimeoutSetupPhase,
    ) -> (r: Result<(), IndividualTransitionError>)
        requires
            old(self).wf(),
        ensures
            final(self).wf(),
            final(self).subscribers() == old(self).subscribers(),
            final(self).listeners() == old(self).listeners(),
            final(self).calls() == old(self).calls(),
            final(self).setups() == old(self).setups(),
            final(self).circuit_mgr() == old(self).circuit_mgr(),
            final(self).routing() == old(self).routing(),
            final(self).spec_call_timeout_secs() == old(self).spec_call_timeout_secs(),
            final(self).spec_telemetry() == old(self).spec_telemetry(),
            final(self).spec_dltime() == old(self).spec_dltime(),
                        old(self).alert_handled(*final(self), old(queue)@, final(queue)@, call_id, called_handle_ctx, setup_timeout, r),

    {
        let c = match self.individual_calls.get(&call_id) {
            Some(c) => *c,
            None => return Err(IndividualTransitionError::UnknownCall(call_id)),
        };
        match Self::validate_individual_transition(call_id, c.state, IndividualEvent::Alert) {
            Ok(()) => {},
            Err(e) => return Err(e),
        }
        match called_handle_ctx {
            Some((handle, link_id, endpoint_id)) => {
                match self.fsm_individual_bind_called_context(call_id, handle, link_id, endpoint_id) {
                    Ok(()) => {},
                    Err(e) => return Err(e),
                }
            },
            None => {},
        }
        if c.calling_over_brew {
            match c.brew_uuid {
                Some(brew_uuid) => queue.push(CcAction::NetworkCircuitAlert { brew_uuid }),
                None => return Err(IndividualTransitionError::MissingBrewUuid(call_id)),
            }
        } else if !c.is_alerted() {
            queue.push(
                CcAction::DAlert {
                    call_id,
                    to: c.calling_addr,
                    handle: c.calling_handle,
                    link_id: c.calling_link_id,
                    endpoint_id: c.calling_endpoint_id,
                    simplex_duplex: c.simplex_duplex,
                    setup_timeout,
                },
            );
        }
        let mut cur = *self.individual_calls.get(&call_id).unwrap();
        cur.mark_alerted(self.dltime, setup_timeout);
        self.individual_calls.insert(call_id, cur);
        assert(queue@ =~= old(queue)@ + (if c.calling_over_brew {
            seq![CcAction::NetworkCircuitAlert { brew_uuid: c.brew_uuid.unwrap() }]
        } else if !spec_is_alerted(c.state) {
            seq![
                CcAction::DAlert {
                    call_id,
                    to: c.calling_addr,
                    handle: c.calling_handle,
                    link_id: c.calling_link_id,
                    endpoint_id: c.calling_endpoint_id,
                    simplex_duplex: c.simplex_duplex,
                    setup_timeout,
                },
            ]
        } else {
            Seq::<CcAction>::empty()
        }));
        Ok(())
    }
}

/// The group address of GSSI `gssi`.
pub open spec fn group_addr(gssi: u32) -> TetraAddress {
    TetraAddress { ssi: gssi, ssi_type: SsiType::Gssi }
}

/// Call `c` after the floor went to `issi` (a local call also records the speaker's address).
pub open spec fn floor_granted(c: ActiveCall, issi: u32, addr: Option<TetraAddress>) -> ActiveCall {
    ActiveCall {
        source_issi: issi,
        tx_active: true,
        hangtime_start: None,
        queued_tx_demand: None,
        origin: match (c.origin, addr) {
            (CallOrigin::Local { .. }, Some(a)) => CallOrigin::Local { caller_addr: a },
            _ => c.origin,
        },
        ..c
    }
}

/// Outcome of a transmission demand from `req` while the floor is held, and the call after it.
pub open spec fn demand_queued(c: ActiveCall, req: TetraAddress) -> (TxDemandQueueResult, ActiveCall) {
    if c.tx_active && c.source_issi == req.ssi {
        (TxDemandQueueResult::FromCurrentSpeaker, c)
    } else {
        match c.queued_tx_demand {
            Some(e) => (
                if e.ssi == req.ssi { TxDemandQueueResult::AlreadyQueuedBySameUser } else { TxDemandQueueResult::QueueBusy },
                c,
            ),
            None => (TxDemandQueueResult::Queued, ActiveCall { queued_tx_demand: Some(req), ..c }),
        }
    }
}

/// Notices of a floor grant of group call `call_id` to `issi`: D-TX GRANTED to the new speaker
/// and to the group, UMAC, and Brew when the group is routed there.
pub open spec fn floor_grant_actions(call_id: u16, req: TetraAddress, dest: TetraAddress, ts: u8, routable: bool) -> Seq<CcAction> {
    seq![
        CcAction::DTxGranted { call_id, to: req, ts, grant: TransmissionGrant::Granted, transmitting_issi: Some(req.ssi) },
        CcAction::DTxGrantedGroup { call_id, transmitting_issi: req.ssi, to: group_addr(dest.ssi), ts },
        CcAction::FloorGranted { dest: ControlDest::Umac, call_id, source_issi: req.ssi, dest_gssi: dest.ssi, ts },
    ] + if routable {
        seq![CcAction::FloorGranted { dest: ControlDest::Brew, call_id, source_issi: req.ssi, dest_gssi: dest.ssi, ts }]
    } else {
        Seq::<CcAction>::empty()
    }
}

/// Reply to a transmission demand that was queued (or not) while `speaker` holds the floor.
pub open spec fn demand_reply(call_id: u16, req: TetraAddress, ts: u8, speaker: u32, qr: TxDemandQueueResult) -> Seq<CcAction> {
    match qr {
        TxDemandQueueResult::FromCurrentSpeaker => Seq::empty(),
        TxDemandQueueResult::QueueBusy => seq![
            CcAction::DTxGranted { call_id, to: req, ts, grant: TransmissionGrant::NotGranted, transmitting_issi: Some(speaker) },
        ],
        _ => seq![
            CcAction::DTxGranted { call_id, to: req, ts, grant: TransmissionGrant::RequestQueued, transmitting_issi: Some(speaker) },
        ],
    }
}

impl CcBsSubentity {
    /// `new`, `q1` and `r` follow from `self` and `q0` on a transmission demand on group call `call_id`.
    pub open spec fn tx_demand_handled(self, new: Self, q0: Seq<CcAction>, q1: Seq<CcAction>, call_id: u16, requesting_party: TetraAddress, r: Result<(), GroupTransitionError>) -> bool {
        &&& !self.calls().contains_key(call_id) ==> r == Err::<(), GroupTransitionError>(
                    GroupTransitionError::UnknownCall(call_id),
                ) && new.calls() =~= self.calls() && q1 =~= q0
        &&& self.calls().contains_key(call_id) ==> {
                    let c = self.calls()[call_id];
                    let c2 = if !c.tx_active {
                        floor_granted(c, requesting_party.ssi, Some(requesting_party))
                    } else {
                        demand_queued(c, requesting_party).1
                    };
                    &&& new.calls() =~= self.calls().insert(call_id, c2)
                    &&& !self.setups().contains_key(call_id) ==> r == Err::<(), GroupTransitionError>(
                        GroupTransitionError::MissingCachedSetup(call_id),
                    ) && q1 =~= q0
                    &&& self.setups().contains_key(call_id) ==> r is Ok && q1 =~= q0 + if !c.tx_active {
                        floor_grant_actions(call_id, requesting_party, self.setups()[call_id], c.ts, self.routable(c.dest_gssi))
                    } else {
                        demand_reply(call_id, requesting_party, c.ts, c.source_issi, demand_queued(c, requesting_party).0)
                    }
                }
    }

    /// `new`, `q1` and `r` follow from `self` and `q0` when the speaker of group call `call_id` stops.
    pub open spec fn tx_ceased_handled(self, new: Self, q0: Seq<CcAction>, q1: Seq<CcAction>, call_id: u16, sender: TetraAddress, r: Result<(), GroupTransitionError>) -> bool {
        &&& !self.calls().contains_key(call_id) ==> r == Err::<(), GroupTransitionError>(
                    GroupTransitionError::UnknownCall(call_id),
                ) && new.calls() =~= self.calls() && q1 =~= q0
        &&& self.calls().contains_key(call_id) ==> {
                    let c = self.calls()[call_id];
                    let c2 = match c.queued_tx_demand {
                        Some(req) => floor_granted(ActiveCall { queued_tx_demand: None, ..c }, req.ssi, Some(req)),
                        None => ActiveCall {
                            queued_tx_demand: None,
                            tx_active: false,
                            hangtime_start: Some(self.spec_dltime()),
                            ..c
                        },
                    };
                    &&& !c.tx_active ==> r == Err::<(), GroupTransitionError>(
                        GroupTransitionError::InvalidTransition {
                            call_id,
                            state: spec_group_state(c),
                            event: GroupEvent::TxCeased,
                        },
                    ) && new.calls() =~= self.calls() && q1 =~= q0
                    &&& c.tx_active && c.source_issi != sender.ssi ==> r == Err::<(), GroupTransitionError>(
                        GroupTransitionError::NotCurrentSpeaker {
                            call_id,
                            sender_issi: sender.ssi,
                            current_speaker_issi: c.source_issi,
                        },
                    ) && new.calls() =~= self.calls() && q1 =~= q0
                    &&& c.tx_active && c.source_issi == sender.ssi ==> {
                        &&& new.calls() =~= self.calls().insert(call_id, c2)
                        &&& !self.setups().contains_key(call_id) ==> r == Err::<(), GroupTransitionError>(
                            GroupTransitionError::MissingCachedSetup(call_id),
                        ) && q1 =~= q0
                        &&& self.setups().contains_key(call_id) ==> r is Ok && q1 =~= q0
                            + match c.queued_tx_demand {
                            Some(req) => floor_grant_actions(
                                call_id,
                                req,
                                self.setups()[call_id],
                                c.ts,
                                self.routable(c.dest_gssi),
                            ),
                            None => seq![
                                CcAction::DTxCeasedGroup { call_id, to: self.setups()[call_id], ts: c.ts },
                                CcAction::FloorReleased { dest: ControlDest::Umac, call_id, ts: c.ts },
                            ] + if self.routable(c.dest_gssi) {
                                seq![CcAction::FloorReleased { dest: ControlDest::Brew, call_id, ts: c.ts }]
                            } else {
                                Seq::<CcAction>::empty()
                            },
                        }
                    }
                }
    }
}

impl CcBsSubentity {
    fn validate_group_transition(call_id: u16, state: GroupCallState, event: GroupEvent) -> (r: Result<(), GroupTransitionError>)
        ensures
            r == (if group_transition_allowed(state, event) {
                Ok::<(), GroupTransitionError>(())
            } else {
                Err(GroupTransitionError::InvalidTransition { call_id, state, event })
            }),
    {
        let allowed = match event {
            GroupEvent::TxCeased => match state {
                GroupCallState::Transmitting => true,
                GroupCallState::NoActiveSpeaker { .. } => false,
            },
            _ => true,
        };
        if allowed {
            Ok(())
        } else {
            Err(GroupTransitionError::InvalidTransition { call_id, state, event })
        }
    }

    /// A transmission demand on group call `call_id`: with no active speaker the requester gets
    /// the floor; otherwise the demand is queued (one slot) and the requester told so.
    pub fn fsm_group_on_tx_demand(&mut self, queue: &mut Vec<CcAction>, call_id: u16, requesting_party: TetraAddress) -> (r:
        Result<(), GroupTransitionError>)
        requires
            old(self).wf(),
        ensures
            final(self).wf(),
            final(self).subscribers() == old(self).subscribers(),
            final(self).listeners() == old(self).listeners(),
            final(self).individual() == old(self).individual(),
            final(self).setups() == old(self).setups(),
            final(self).circuit_mgr() == old(self).circuit_mgr(),
            final(self).routing() == old(self).routing(),
            final(self).spec_dltime() == old(self).spec_dltime(),
            final(self).spec_telemetry() == old(self).spec_telemetry(),
            final(self).spec_call_timeout_secs() == old(self).spec_call_timeout_secs(),
                        old(self).tx_demand_handled(*final(self), old(queue)@, final(queue)@, call_id, requesting_party, r),

    {
        let mut call = match self.active_calls.get(&call_id) {
            Some(c) => *c,
            None => return Err(GroupTransitionError::UnknownCall(call_id)),
        };
        let state = call.state();
        match Self::validate_group_transition(call_id, state, GroupEvent::TxDemand) {
            Ok(()) => {},
            Err(e) => return Err(e),
        }
        let ts = call.ts;
        let dest_ssi = call.dest_gssi;
        let current_speaker = call.source_issi;
        let grant_now = !call.is_tx_active();
        let queue_result = if grant_now {
            call.grant_floor(requesting_party.ssi, Some(requesting_party));
            None
        } else {
            Some(call.queue_tx_demand(requesting_party))
        };
        self.active_calls.insert(call_id, call);
        let dest_addr = match self.cached_setups.get(&call_id) {
            Some(d) => *d,
            None => return Err(GroupTransitionError::MissingCachedSetup(call_id)),
        };
        match queue_result {
            Some(qr) => {
                match qr {
                    TxDemandQueueResult::FromCurrentSpeaker => {},
                    TxDemandQueueResult::Queued | TxDemandQueueResult::AlreadyQueuedBySameUser => {
                        queue.push(
                            CcAction::DTxGranted {
                                call_id,
                                to: requesting_party,
                                ts,
                                grant: TransmissionGrant::RequestQueued,
                                transmitting_issi: Some(current_speaker),
                            },
                        );
                    },
                    TxDemandQueueResult::QueueBusy => {
                        queue.push(
                            CcAction::DTxGranted {
                                call_id,
                                to: requesting_party,
                                ts,
                                grant: TransmissionGrant::NotGranted,
                                transmitting_issi: Some(current_speaker),
                            },
                        );
                    },
                }
                assert(queue@ =~= old(queue)@ + demand_reply(call_id, requesting_party, ts, current_speaker, qr));
                return Ok(());
            },
            None => {},
        }
        self.push_floor_grant(queue, call_id, requesting_party, dest_addr, ts, dest_ssi);
        Ok(())
    }

    fn push_floor_grant(
        &self,
        queue: &mut Vec<CcAction>,
        call_id: u16,
        req: TetraAddress,
        dest: TetraAddress,
        ts: u8,
        dest_gssi: u32,
    )
        ensures
            final(queue)@ == old(queue)@ + floor_grant_actions(call_id, req, dest, ts, self.routable(dest_gssi)),
    {
        queue.push(CcAction::DTxGranted { call_id, to: req, ts, grant: TransmissionGrant::Granted, transmitting_issi: Some(req.ssi) });
        queue.push(
            CcAction::DTxGrantedGroup {
                call_id,
                transmitting_issi: req.ssi,
                to: TetraAddress { ssi: dest.ssi, ssi_type: SsiType::Gssi },
                ts,
            },
        );
        queue.push(CcAction::FloorGranted { dest: ControlDest::Umac, call_id, source_issi: req.ssi, dest_gssi: dest.ssi, ts });
        if is_brew_gssi_routable(&self.config.routing, dest_gssi) {
            queue.push(CcAction::FloorGranted { dest: ControlDest::Brew, call_id, source_issi: req.ssi, dest_gssi: dest.ssi, ts });
        }
        assert(queue@ =~= old(queue)@ + floor_grant_actions(call_id, req, dest, ts, self.routable(dest_gssi)));
    }

    /// Law: when the speaker of group call `call_id` ceases while MS `req`'s transmission
    /// demand is queued, the floor passes to `req`: the call goes on transmitting with `req` as
    /// its speaker and an empty demand queue, `req` is sent D-TX GRANTED (granted, `req`
    /// transmitting), and no floor release or D-TX CEASED is sent.
    pub proof fn lemma_ceased_floor_goes_to_queued(
        self,
        new: Self,
        q0: Seq<CcAction>,
        q1: Seq<CcAction>,
        call_id: u16,
        sender: TetraAddress,
        r: Result<(), GroupTransitionError>,
        req: TetraAddress,
    )
        requires
            self.tx_ceased_handled(new, q0, q1, call_id, sender, r),
            self.calls().contains_key(call_id),
            self.setups().contains_key(call_id),
            self.calls()[call_id].tx_active,
            self.calls()[call_id].source_issi == sender.ssi,
            self.calls()[call_id].queued_tx_demand == Some(req),
        ensures
            r is Ok,
            new.calls().contains_key(call_id),
            new.calls()[call_id].tx_active,
            new.calls()[call_id].source_issi == req.ssi,
            new.calls()[call_id].queued_tx_demand is None,
            q0.is_prefix_of(q1),
            q1.skip(q0.len() as int).contains(
                CcAction::DTxGranted {
                    call_id,
                    to: req,
                    ts: self.calls()[call_id].ts,
                    grant: TransmissionGrant::Granted,
                    transmitting_issi: Some(req.ssi),
                },
            ),
            forall|i: int| q0.len() <= i < q1.len() ==> !(#[trigger] q1[i] is FloorReleased) && !(q1[i] is DTxCeasedGroup),
    {
        let c = self.calls()[call_id];
        let g = floor_grant_actions(call_id, req, self.setups()[call_id], c.ts, self.routable(c.dest_gssi));
        assert(q1 =~= q0 + g);
        assert(q1.skip(q0.len() as int) =~= g);
        assert(g[0] == CcAction::DTxGranted {
            call_id,
            to: req,
            ts: c.ts,
            grant: TransmissionGrant::Granted,
            transmitting_issi: Some(req.ssi),
        });
        assert(q1.subrange(0, q0.len() as int) =~= q0);
        assert forall|i: int| q0.len() <= i < q1.len() implies !(#[trigger] q1[i] is FloorReleased) && !(q1[i] is DTxCeasedGroup) by {
            assert(q1[i] == g[i - q0.len()]);
        }
    }

    /// The speaker of group call `call_id` released the floor: it goes to the queued requester
    /// if any, else the call enters hang time.
    pub fn fsm_group_on_tx_ceased(&mut self, queue: &mut Vec<CcAction>, call_id: u16, sender: TetraAddress) -> (r: Result<
        (),
        GroupTransitionError,
    >)
        requires
            old(self).wf(),
        ensures
            final(self).wf(),
            final(self).subscribers() == old(self).subscribers(),
            final(self).listeners() == old(self).listeners(),
            final(self).individual() == old(self).individual(),
            final(self).setups() == old(self).setups(),
            final(self).circuit_mgr() == old(self).circuit_mgr(),
            final(self).routing() == old(self).routing(),
            final(self).spec_dltime() == old(self).spec_dltime(),
            final(self).spec_telemetry() == old(self).spec_telemetry(),
            final(self).spec_call_timeout_secs() == old(self).spec_call_timeout_secs(),
                        old(self).tx_ceased_handled(*final(self), old(queue)@, final(queue)@, call_id, sender, r),

    {
        let mut call = match self.active_calls.get(&call_id) {
            Some(c) => *c,
            None => return Err(GroupTransitionError::UnknownCall(call_id)),
        };
        let state = call.state();
        match Self::validate_group_transition(call_id, state, GroupEvent::TxCeased) {
            Ok(()) => {},
            Err(e) => return Err(e),
        }
        if !call.is_current_speaker(sender.ssi) {
            return Err(
                GroupTransitionError::NotCurrentSpeaker { call_id, sender_issi: sender.ssi, current_speaker_issi: call.source_issi },
            );
        }
        let ts = call.ts;
        let dest_ssi = call.dest_gssi;
        let queued_request = call.take_queued_tx_demand();
        match queued_request {
            Some(req) => call.grant_floor(req.ssi, Some(req)),
            None => call.enter_hangtime(self.dltime),
        }
        self.active_calls.insert(call_id, call);
        let dest_addr = match self.cached_setups.get(&call_id) {
            Some(d) => *d,
            None => return Err(GroupTransitionError::MissingCachedSetup(call_id)),
        };
        match queued_request {
            Some(req) => {
                self.push_floor_grant(queue, call_id, req, dest_addr, ts, dest_ssi);
                return Ok(());
            },
            None => {},
        }
        queue.push(CcAction::DTxCeasedGroup { call_id, to: dest_addr, ts });
        queue.push(CcAction::FloorReleased { dest: ControlDest::Umac, call_id, ts });
        if is_brew_gssi_routable(&self.config.routing, dest_ssi) {
            queue.push(CcAction::FloorReleased { dest: ControlDest::Brew, call_id, ts });
        }
        assert(queue@ =~= old(queue)@ + seq![
            CcAction::DTxCeasedGroup { call_id, to: dest_addr, ts },
            CcAction::FloorReleased { dest: ControlDest::Umac, call_id, ts },
        ] + if self.routable(dest_ssi) {
            seq![CcAction::FloorReleased { dest: ControlDest::Brew, call_id, ts }]
        } else {
            Seq::<CcAction>::empty()
        });
        Ok(())
    }

    /// A new speaker from the network on group call `call_id`: the floor goes to it and the
    /// call follows the new Brew session.
    pub fn fsm_group_on_network_call_start(
        &mut self,
        queue: &mut Vec<CcAction>,
        call_id: u16,
        brew_uuid: u128,
        source_issi: u32,
    ) -> (r: Result<(), GroupTransitionError>)
        requires
            old(self).wf(),
        ensures
            final(self).wf(),
            final(self).subscribers() == old(self).subscribers(),
            final(self).listeners() == old(self).listeners(),
            final(self).individual() == old(self).individual(),
            final(self).setups() == old(self).setups(),
            final(self).circuit_mgr() == old(self).circuit_mgr(),
            final(self).routing() == old(self).routing(),
            final(self).spec_dltime() == old(self).spec_dltime(),
            final(self).spec_telemetry() == old(self).spec_telemetry(),
            final(self).spec_call_timeout_secs() == old(self).spec_call_timeout_secs(),
                        old(self).speaker_changed(*final(self), old(queue)@, final(queue)@, call_id, brew_uuid, source_issi, r),

    {
        let mut call = match self.active_calls.get(&call_id) {
            Some(c) => *c,
            None => return Err(GroupTransitionError::UnknownCall(call_id)),
        };
        let state = call.state();
        match Self::validate_group_transition(call_id, state, GroupEvent::NetworkCallStart) {
            Ok(()) => {},
            Err(e) => return Err(e),
        }
        call.grant_floor(source_issi, None);
        call.brew_uuid = Some(brew_uuid);
        match call.origin {
            CallOrigin::Network { brew_uuid: old_uuid } => {
                if old_uuid != brew_uuid {
                    call.origin = CallOrigin::Network { brew_uuid };
                }
            },
            CallOrigin::Local { .. } => {},
        }
        let ts = call.ts;
        let usage = call.usage;
        let dest_gssi = call.dest_gssi;
        self.active_calls.insert(call_id, call);
        queue.push(
            CcAction::DTxGrantedGroup {
                call_id,
                transmitting_issi: source_issi,
                to: TetraAddress { ssi: dest_gssi, ssi_type: SsiType::Gssi },
                ts,
            },
        );
        queue.push(CcAction::FloorGranted { dest: ControlDest::Umac, call_id, source_issi, dest_gssi, ts });
        queue.push(CcAction::NetworkCallReady { brew_uuid, call_id, ts, usage });
        Ok(())
    }

    /// The network speaker of group call `call_id` stopped: a transmitting call enters hang
    /// time; a call already in hang time is released.
    pub fn fsm_group_on_network_call_end(&mut self, queue: &mut Vec<CcAction>, call_id: u16) -> (r: Result<
        (),
        GroupTransitionError,
    >)
        requires
            old(self).wf(),
        ensures
            final(self).wf(),
            final(self).subscribers() == old(self).subscribers(),
            final(self).listeners() == old(self).listeners(),
            final(self).individual() == old(self).individual(),
            final(self).routing() == old(self).routing(),
            final(self).spec_dltime() == old(self).spec_dltime(),
            final(self).spec_telemetry() == old(self).spec_telemetry(),
            final(self).spec_call_timeout_secs() == old(self).spec_call_timeout_secs(),
                        old(self).network_speaker_ended(*final(self), old(queue)@, final(queue)@, call_id, r),

    {
        let call = match self.active_calls.get(&call_id) {
            Some(c) => *c,
            None => return Err(GroupTransitionError::UnknownCall(call_id)),
        };
        let state = call.state();
        match Self::validate_group_transition(call_id, state, GroupEvent::NetworkCallEnd) {
            Ok(()) => {},
            Err(e) => return Err(e),
        }
        if call.is_tx_active() {
            let mut updated = call;
            updated.enter_hangtime(self.dltime);
            updated.brew_uuid = None;
            self.active_calls.insert(call_id, updated);
            queue.push(CcAction::DTxCeasedGroup { call_id, to: TetraAddress { ssi: call.dest_gssi, ssi_type: SsiType::Gssi }, ts: call.ts });
            queue.push(CcAction::FloorReleased { dest: ControlDest::Umac, call_id, ts: call.ts });
            return Ok(());
        }
        self.release_group_call(queue, call_id, DisconnectCause::SwmiRequestedDisconnection);
        Ok(())
    }
}

/// The disconnect cause with raw value `raw`, if any.
pub open spec fn spec_disconnect_cause(raw: u8) -> Option<DisconnectCause> {
    if raw == 0 {
        Some(DisconnectCause::CauseNotDefined)
    } else if raw == 1 {
        Some(DisconnectCause::UserRequestedDisconnection)
    } else if raw == 2 {
        Some(DisconnectCause::CalledPartyBusy)
    } else if raw == 3 {
        Some(DisconnectCause::CalledPartyNotReachable)
    } else if raw == 4 {
        Some(DisconnectCause::CalledPartyDoesNotSupportEncryption)
    } else if raw == 5 {
        Some(DisconnectCause::CongestionInInfrastructure)
    } else if raw == 6 {
        Some(DisconnectCause::NotAllowedTrafficCase)
    } else if raw == 7 {
        Some(DisconnectCause::IncompatibleTrafficCase)
    } else if raw == 8 {
        Some(DisconnectCause::RequestedServiceNotAvailable)
    } else if raw == 9 {
        Some(DisconnectCause::PreEmptiveUseOfResource)
    } else if raw == 10 {
        Some(DisconnectCause::InvalidCallIdentifier)
    } else if raw == 11 {
        Some(DisconnectCause::CallRejectedByCalledParty)
    } else if raw == 12 {
        Some(DisconnectCause::NoIdleCcEntity)
    } else if raw == 13 {
        Some(DisconnectCause::ExpiryOfTimer)
    } else if raw == 14 {
        Some(DisconnectCause::SwmiRequestedDisconnection)
    } else if raw == 15 {
        Some(DisconnectCause::AcknowledgedServiceNotCompleted)
    } else if raw == 16 {
        Some(DisconnectCause::UnknownTetraIdentity)
    } else if raw == 17 {
        Some(DisconnectCause::SsSpecificDisconnection)
    } else if raw == 18 {
        Some(DisconnectCause::UnknownExternalSubscriberIdentity)
    } else if raw == 19 {
        Some(DisconnectCause::CallRestorationOfOtherUserFailed)
    } else if raw == 20 {
        Some(DisconnectCause::CalledPartyRequiresEncryption)
    } else if raw == 21 {
        Some(DisconnectCause::ConcurrentSetUpNotSupported)
    } else if raw == 22 {
        Some(DisconnectCause::CalledPartyIsUnderTheSameDmGateOfTheSwmi)
    } else {
        None
    }
}

/// Decode a raw disconnect cause (ETSI EN 300 392-2 clause 14.8.17).
pub fn disconnect_cause_from_raw(raw: u8) -> (r: Option<DisconnectCause>)
    ensures
        r == spec_disconnect_cause(raw),
{
    match raw {
        0 => Some(DisconnectCause::CauseNotDefined),
        1 => Some(DisconnectCause::UserRequestedDisconnection),
        2 => Some(DisconnectCause::CalledPartyBusy),
        3 => Some(DisconnectCause::CalledPartyNotReachable),
        4 => Some(DisconnectCause::CalledPartyDoesNotSupportEncryption),
        5 => Some(DisconnectCause::CongestionInInfrastructure),
        6 => Some(DisconnectCause::NotAllowedTrafficCase),
        7 => Some(DisconnectCause::IncompatibleTrafficCase),
        8 => Some(DisconnectCause::RequestedServiceNotAvailable),
        9 => Some(DisconnectCause::PreEmptiveUseOfResource),
        10 => Some(DisconnectCause::InvalidCallIdentifier),
        11 => Some(DisconnectCause::CallRejectedByCalledParty),
        12 => Some(DisconnectCause::NoIdleCcEntity),
        13 => Some(DisconnectCause::ExpiryOfTimer),
        14 => Some(DisconnectCause::SwmiRequestedDisconnection),
        15 => Some(DisconnectCause::AcknowledgedServiceNotCompleted),
        16 => Some(DisconnectCause::UnknownTetraIdentity),
        17 => Some(DisconnectCause::SsSpecificDisconnection),
        18 => Some(DisconnectCause::UnknownExternalSubscriberIdentity),
        19 => Some(DisconnectCause::CallRestorationOfOtherUserFailed),
        20 => Some(DisconnectCause::CalledPartyRequiresEncryption),
        21 => Some(DisconnectCause::ConcurrentSetUpNotSupported),
        22 => Some(DisconnectCause::CalledPartyIsUnderTheSameDmGateOfTheSwmi),
        _ => None,
    }
}

/// The cause a raw value stands for, or `default` when it names none.
pub open spec fn cause_or(raw: u8, default: DisconnectCause) -> DisconnectCause {
    match spec_disconnect_cause(raw) {
        Some(c) => c,
        None => default,
    }
}

impl CcBsSubentity {
    /// A group call to `gssi`, if any (the first met in the map's iteration order).
    fn find_group_call(&self, gssi: u32) -> (r: Option<u16>)
        ensures
            match r {
                Some(id) => self.calls().contains_key(id) && self.calls()[id].dest_gssi == gssi,
                None => forall|id: u16| #[trigger] self.calls().contains_key(id) ==> self.calls()[id].dest_gssi != gssi,
            },
    {
        let ids = map_keys(&self.active_calls);
        let mut i: usize = 0;
        while i < ids.len()
            invariant
                ids@.to_set() == self.active_calls@.dom(),
                i <= ids@.len(),
                forall|j: int| 0 <= j < i ==> self.active_calls@[#[trigger] ids@[j]].dest_gssi != gssi,
            decreases ids@.len() - i,
        {
            let id = ids[i];
            assert(ids@.to_set().contains(id));
            if self.active_calls.get(&id).unwrap().dest_gssi == gssi {
                return Some(id);
            }
            i = i + 1;
        }
        proof {
            assert forall|id: u16| #[trigger] self.calls().contains_key(id) implies self.calls()[id].dest_gssi != gssi by {
                assert(ids@.to_set().contains(id));
                let j = choose|j: int| 0 <= j < ids@.len() && ids@[j] == id;
                assert(self.active_calls@[ids@[j]].dest_gssi != gssi);
            }
        }
        None
    }

    /// A group call carrying Brew session `brew_uuid`, if any.
    fn find_call_by_brew_uuid(&self, brew_uuid: u128) -> (r: Option<u16>)
        ensures
            match r {
                Some(id) => self.calls().contains_key(id) && self.calls()[id].brew_uuid == Some(brew_uuid),
                None => forall|id: u16| #[trigger] self.calls().contains_key(id) ==> self.calls()[id].brew_uuid != Some(
                    brew_uuid,
                ),
            },
    {
        let ids = map_keys(&self.active_calls);
        let mut i: usize = 0;
        while i < ids.len()
            invariant
                ids@.to_set() == self.active_calls@.dom(),
                i <= ids@.len(),
                forall|j: int| 0 <= j < i ==> self.active_calls@[#[trigger] ids@[j]].brew_uuid != Some(brew_uuid),
            decreases ids@.len() - i,
        {
            let id = ids[i];
            assert(ids@.to_set().contains(id));
            if self.active_calls.get(&id).unwrap().brew_uuid == Some(brew_uuid) {
                return Some(id);
            }
            i = i + 1;
        }
        proof {
            assert forall|id: u16| #[trigger] self.calls().contains_key(id) implies self.calls()[id].brew_uuid != Some(brew_uuid) by {
                assert(ids@.to_set().contains(id));
                let j = choose|j: int| 0 <= j < ids@.len() && ids@[j] == id;
                assert(self.active_calls@[ids@[j]].brew_uuid != Some(brew_uuid));
            }
        }
        None
    }

    /// An individual call carrying Brew session `brew_uuid`, if any.
    fn find_brew_individual_call(&self, brew_uuid: u128) -> (r: Option<u16>)
        ensures
            match r {
                Some(id) => self.individual().contains_key(id) && self.individual()[id].brew_uuid == Some(brew_uuid),
                None => forall|id: u16| #[trigger] self.individual().contains_key(id) ==> self.individual()[id].brew_uuid
                    != Some(brew_uuid),
            },
    {
        let ids = map_keys(&self.individual_calls);
        let mut i: usize = 0;
        while i < ids.len()
            invariant
                ids@.to_set() == self.individual_calls@.dom(),
                i <= ids@.len(),
                forall|j: int| 0 <= j < i ==> self.individual_calls@[#[trigger] ids@[j]].brew_uuid != Some(brew_uuid),
            decreases ids@.len() - i,
        {
            let id = ids[i];
            assert(ids@.to_set().contains(id));
            if self.individual_calls.get(&id).unwrap().brew_uuid == Some(brew_uuid) {
                return Some(id);
            }
            i = i + 1;
        }
        proof {
            assert forall|id: u16| #[trigger] self.individual().contains_key(id) implies self.individual()[id].brew_uuid != Some(
                brew_uuid,
            ) by {
                assert(ids@.to_set().contains(id));
                let j = choose|j: int| 0 <= j < ids@.len() && ids@[j] == id;
                assert(self.individual_calls@[ids@[j]].brew_uuid != Some(brew_uuid));
            }
        }
        None
    }

    /// `new` and `q1` follow from `self` and `q0` on a network call end for session `brew_uuid`:
    /// the group call carrying it ends its network speaker (`network_speaker_ended`); with no
    /// such call nothing changes.
    pub open spec fn network_call_ended(self, new: Self, q0: Seq<CcAction>, q1: Seq<CcAction>, brew_uuid: u128) -> bool {
        &&& new.individual() == self.individual()
        &&& (forall|id: u16| #[trigger] self.calls().contains_key(id) ==> self.calls()[id].brew_uuid != Some(brew_uuid))
            ==> new.calls() == self.calls() && new.setups() == self.setups() && new.circuit_mgr() == self.circuit_mgr()
            && q1 == q0
        &&& (exists|id: u16| #[trigger] self.calls().contains_key(id) && self.calls()[id].brew_uuid == Some(brew_uuid))
            ==> exists|id: u16, r: Result<(), GroupTransitionError>|
            #![trigger self.network_speaker_ended(new, q0, q1, id, r)]
            self.calls().contains_key(id) && self.calls()[id].brew_uuid == Some(brew_uuid)
                && self.network_speaker_ended(new, q0, q1, id, r)
    }

    /// `new` and `q1` follow from `self` and `q0` when a network speaker (Brew session
    /// `brew_uuid`, ISSI `source_issi`, priority `priority`) starts on group `dest_gssi`.
    pub open spec fn network_call_started(
        self,
        new: Self,
        q0: Seq<CcAction>,
        q1: Seq<CcAction>,
        brew_uuid: u128,
        source_issi: u32,
        dest_gssi: u32,
        priority: u8,
    ) -> bool {
        &&& new.individual() == self.individual()
        &&& !self.spec_has_listener(dest_gssi) ==> {
            let d = unlistened_calls(self.calls(), self.setups(), set![dest_gssi], self.listeners());
            &&& new.calls() == self.calls().remove_keys(d)
            &&& new.setups() == self.setups().remove_keys(d)
            &&& q1.len() > 0
            &&& q1.last() == CcAction::NetworkCallEnd { brew_uuid }
            &&& release_log(q0, q1.drop_last(), d, self.setups())
        }
        &&& self.spec_has_listener(dest_gssi) && (exists|id: u16| #[trigger] self.calls().contains_key(id)
            && self.calls()[id].dest_gssi == dest_gssi) ==> exists|id: u16|
            #[trigger] self.calls().contains_key(id) && self.calls()[id].dest_gssi == dest_gssi && {
                let c = self.calls()[id];
                if c.tx_active && c.origin is Local && priority == 0 {
                    new.calls() == self.calls() && new.setups() == self.setups()
                        && new.circuit_mgr() == self.circuit_mgr() && q1 == q0.push(CcAction::NetworkCallEnd { brew_uuid })
                } else {
                    exists|r: Result<(), GroupTransitionError>|
                        self.speaker_changed(new, q0, q1, id, brew_uuid, source_issi, r)
                }
            }
        &&& self.spec_has_listener(dest_gssi) && (forall|id: u16| #[trigger] self.calls().contains_key(id)
            ==> self.calls()[id].dest_gssi != dest_gssi) ==> match self.circuit_mgr().free_slot(Direction::Both) {
            None => new.calls() == self.calls() && new.setups() == self.setups() && q1 == q0,
            Some(slot) => {
                let m = self.circuit_mgr();
                let call_id = m.spec_next_call_id();
                let usage = m.spec_next_usage();
                let circuit = made_circuit(m.dltime, Direction::Both, slot, call_id, usage, CommunicationType::P2Mp, false);
                let to = group_addr(dest_gssi);
                let timeout = spec_config_call_timeout(self.spec_call_timeout_secs());
                &&& new.setups() == self.setups().insert(call_id, to)
                &&& new.calls() == self.calls().insert(
                    call_id,
                    ActiveCall {
                        origin: CallOrigin::Network { brew_uuid },
                        dest_gssi,
                        source_issi,
                        priority,
                        created_at: self.spec_dltime(),
                        call_timeout: timeout,
                        ts: slot.ts,
                        usage,
                        tx_active: true,
                        hangtime_start: None,
                        queued_tx_demand: None,
                        brew_uuid: Some(brew_uuid),
                    },
                )
                &&& q1 == q0 + seq![
                    CcAction::CircuitOpen { circuit },
                    CcAction::DSetup { call_id, to, calling_issi: source_issi, usage, ts: slot.ts, call_timeout: timeout },
                    CcAction::DConnect { call_id, to, call_timeout: timeout },
                    CcAction::NetworkCallReady { brew_uuid, call_id, ts: slot.ts, usage },
                ]
            },
        }
    }

    /// A network call end from Brew: the group call carrying that session stops (see
    /// `fsm_group_on_network_call_end`); an unknown session is ignored.
    pub fn rx_network_call_end(&mut self, queue: &mut Vec<CcAction>, brew_uuid: u128)
        requires
            old(self).wf(),
        ensures
            final(self).wf(),
            final(self).subscribers() == old(self).subscribers(),
            final(self).listeners() == old(self).listeners(),
            final(self).routing() == old(self).routing(),
            final(self).spec_dltime() == old(self).spec_dltime(),
            old(self).network_call_ended(*final(self), old(queue)@, final(queue)@, brew_uuid),
    {
        match self.find_call_by_brew_uuid(brew_uuid) {
            Some(id) => {
                let r = self.fsm_group_on_network_call_end(queue, id);
            },
            None => {},
        }
    }

    /// A network speaker starts on group `dest_gssi`. With no local listener the group's calls
    /// are dropped and Brew told the call ends; on an existing call the floor goes to the
    /// network speaker, unless a local speaker holds it against a call of priority 0; otherwise a
    /// new circuit and call are set up.
    pub fn rx_network_call_start(
        &mut self,
        queue: &mut Vec<CcAction>,
        brew_uuid: u128,
        source_issi: u32,
        dest_gssi: u32,
        priority: u8,
    )
        requires
            old(self).wf(),
            old(self).routable(dest_gssi),
        ensures
            final(self).wf(),
            final(self).subscribers() == old(self).subscribers(),
            final(self).listeners() == old(self).listeners(),
            final(self).routing() == old(self).routing(),
            final(self).spec_dltime() == old(self).spec_dltime(),
            old(self).network_call_started(*final(self), old(queue)@, final(queue)@, brew_uuid, source_issi, dest_gssi, priority),
    {
        if !self.has_listener(dest_gssi) {
            self.drop_group_calls_if_unlistened(queue, dest_gssi);
            let ghost q1 = queue@;
            queue.push(CcAction::NetworkCallEnd { brew_uuid });
            assert(queue@.drop_last() =~= q1);
            return;
        }
        match self.find_group_call(dest_gssi) {
            Some(id) => {
                let call = *self.active_calls.get(&id).unwrap();
                let protected = call.tx_active && match call.origin {
                    CallOrigin::Local { .. } => true,
                    CallOrigin::Network { .. } => false,
                };
                if protected && priority == 0 {
                    queue.push(CcAction::NetworkCallEnd { brew_uuid });
                    return;
                }
                let r = self.fsm_group_on_network_call_start(queue, id, brew_uuid, source_issi);
                return;
            },
            None => {},
        }
        let circuit = match self.circuits.allocate_circuit(Direction::Both, CommunicationType::P2Mp, false) {
            Ok(c) => c,
            Err(_) => return,
        };
        let call_id = circuit.call_id;
        let ts = circuit.ts;
        let usage = circuit.usage;
        let ghost q0 = queue@;
        let a1 = CcAction::CircuitOpen { circuit };
        queue.push(a1);
        let dest_addr = TetraAddress { ssi: dest_gssi, ssi_type: SsiType::Gssi };
        let timeout = self.config_call_timeout();
        self.cached_setups.insert(call_id, dest_addr);
        let a2 = CcAction::DSetup { call_id, to: dest_addr, calling_issi: source_issi, usage, ts, call_timeout: timeout };
        queue.push(a2);
        let a3 = CcAction::DConnect { call_id, to: dest_addr, call_timeout: timeout };
        queue.push(a3);
        let call = ActiveCall::new_network(brew_uuid, dest_gssi, source_issi, ts, usage, self.dltime, timeout, priority);
        self.active_calls.insert(call_id, call);
        let a4 = CcAction::NetworkCallReady { brew_uuid, call_id, ts, usage };
        queue.push(a4);
        assert(queue@ =~= q0 + seq![a1, a2, a3, a4]);
    }

    /// `new` and `q1` follow from `self` and `q0` when Brew ends session `brew_uuid` with
    /// `cause`: the individual call carrying it is released with that cause
    /// (`individual_released`); with no such call nothing changes.
    pub open spec fn brew_individual_released(
        self,
        new: Self,
        q0: Seq<CcAction>,
        q1: Seq<CcAction>,
        brew_uuid: u128,
        cause: DisconnectCause,
    ) -> bool {
        &&& new.calls() == self.calls()
        &&& (forall|id: u16| #[trigger] self.individual().contains_key(id) ==> self.individual()[id].brew_uuid != Some(brew_uuid))
            ==> new.individual() == self.individual() && new.setups() == self.setups()
            && new.circuit_mgr() == self.circuit_mgr() && q1 == q0
        &&& (exists|id: u16| #[trigger] self.individual().contains_key(id) && self.individual()[id].brew_uuid == Some(brew_uuid))
            ==> exists|id: u16|
            #[trigger] self.individual().contains_key(id) && self.individual()[id].brew_uuid == Some(brew_uuid)
                && self.individual_released(new, q0, q1, id, cause)
    }

    /// `new` and `q1` follow from `self` and `q0` when the called party behind Brew session
    /// `brew_uuid` is alerting: the individual call carrying it handles the alert with a 60 s
    /// set-up time-out (`alert_handled`); with no such call nothing changes.
    pub open spec fn brew_alerted(self, new: Self, q0: Seq<CcAction>, q1: Seq<CcAction>, brew_uuid: u128) -> bool {
        &&& new.calls() == self.calls()
        &&& new.setups() == self.setups()
        &&& new.circuit_mgr() == self.circuit_mgr()
        &&& (forall|id: u16| #[trigger] self.individual().contains_key(id) ==> self.individual()[id].brew_uuid != Some(brew_uuid))
            ==> new.individual() == self.individual() && q1 == q0
        &&& (exists|id: u16| #[trigger] self.individual().contains_key(id) && self.individual()[id].brew_uuid == Some(brew_uuid))
            ==> exists|id: u16, r: Result<(), IndividualTransitionError>|
            #![trigger self.alert_handled(new, q0, q1, id, None, CallTimeoutSetupPhase::T60s, r)]
            self.individual().contains_key(id) && self.individual()[id].brew_uuid == Some(brew_uuid)
                && self.alert_handled(new, q0, q1, id, None, CallTimeoutSetupPhase::T60s, r)
    }

    /// Brew rejected an individual call set-up: release the call with the given cause (a
    /// cause that names none counts as "requested service not available").
    pub fn rx_network_circuit_setup_reject(&mut self, queue: &mut Vec<CcAction>, brew_uuid: u128, cause: u8)
        requires
            old(self).wf(),
        ensures
            final(self).wf(),
            final(self).subscribers() == old(self).subscribers(),
            final(self).listeners() == old(self).listeners(),
            final(self).routing() == old(self).routing(),
            final(self).spec_dltime() == old(self).spec_dltime(),
            old(self).brew_individual_released(
                *final(self),
                old(queue)@,
                final(queue)@,
                brew_uuid,
                cause_or(cause, DisconnectCause::RequestedServiceNotAvailable),
            ),
    {
        match self.find_brew_individual_call(brew_uuid) {
            Some(id) => {
                let mapped = match disconnect_cause_from_raw(cause) {
                    Some(c) => c,
                    None => DisconnectCause::RequestedServiceNotAvailable,
                };
                self.release_individual_call(queue, id, mapped);
            },
            None => {},
        }
    }

    /// Brew released an individual call: release it with the given cause (a cause that names
    /// none counts as "SwMI requested disconnection").
    pub fn rx_network_circuit_release(&mut self, queue: &mut Vec<CcAction>, brew_uuid: u128, cause: u8)
        requires
            old(self).wf(),
        ensures
            final(self).wf(),
            final(self).subscribers() == old(self).subscribers(),
            final(self).listeners() == old(self).listeners(),
            final(self).routing() == old(self).routing(),
            final(self).spec_dltime() == old(self).spec_dltime(),
            old(self).brew_individual_released(
                *final(self),
                old(queue)@,
                final(queue)@,
                brew_uuid,
                cause_or(cause, DisconnectCause::SwmiRequestedDisconnection),
            ),
    {
        match self.find_brew_individual_call(brew_uuid) {
            Some(id) => {
                let mapped = match disconnect_cause_from_raw(cause) {
                    Some(c) => c,
                    None => DisconnectCause::SwmiRequestedDisconnection,
                };
                self.release_individual_call(queue, id, mapped);
            },
            None => {},
        }
    }

    /// The called party behind Brew is alerting: the individual call carrying that session
    /// handles the alert with a 60 s set-up time-out.
    pub fn rx_network_circuit_alert(&mut self, queue: &mut Vec<CcAction>, brew_uuid: u128)
        requires
            old(self).wf(),
        ensures
            final(self).wf(),
            final(self).subscribers() == old(self).subscribers(),
            final(self).listeners() == old(self).listeners(),
            final(self).routing() == old(self).routing(),
            final(self).spec_dltime() == old(self).spec_dltime(),
            old(self).brew_alerted(*final(self), old(queue)@, final(queue)@, brew_uuid),
    {
        match self.find_brew_individual_call(brew_uuid) {
            Some(id) => {
                let r = self.fsm_individual_on_alert(queue, id, None, CallTimeoutSetupPhase::T60s);
            },
            None => {},
        }
    }

    /// Dispatch a call-control message from the network side.
    pub fn rx_call_control(&mut self, queue: &mut Vec<CcAction>, message: CallControl)
        requires
            old(self).wf(),
            message matches CallControl::NetworkCallStart { dest_gssi, .. } ==> old(self).routable(dest_gssi),
        ensures
            final(self).wf(),
            final(self).subscribers() == old(self).subscribers(),
            final(self).listeners() == old(self).listeners(),
            final(self).routing() == old(self).routing(),
            final(self).spec_dltime() == old(self).spec_dltime(),
            message is NetworkCircuitSetupAccept || message is NetworkCircuitMediaReady ==> *final(self) == *old(self)
                && final(queue)@ == old(queue)@,
            message matches CallControl::NetworkCallStart { brew_uuid, source_issi, dest_gssi, priority }
                ==> old(self).network_call_started(
                *final(self),
                old(queue)@,
                final(queue)@,
                brew_uuid,
                source_issi,
                dest_gssi,
                priority,
            ),
            message matches CallControl::NetworkCallEnd { brew_uuid } ==> old(self).network_call_ended(
                *final(self),
                old(queue)@,
                final(queue)@,
                brew_uuid,
            ),
            message matches CallControl::NetworkCircuitConnectRequest { brew_uuid, call } ==> old(self).connect_requested(
                *final(self),
                old(queue)@,
                final(queue)@,
                brew_uuid,
                call.grant,
                call.permission,
            ),
            message matches CallControl::NetworkCircuitSetupReject { brew_uuid, cause } ==> old(self).brew_individual_released(
                *final(self),
                old(queue)@,
                final(queue)@,
                brew_uuid,
                cause_or(cause, DisconnectCause::RequestedServiceNotAvailable),
            ),
            message matches CallControl::NetworkCircuitAlert { brew_uuid } ==> old(self).brew_alerted(
                *final(self),
                old(queue)@,
                final(queue)@,
                brew_uuid,
            ),
            message matches CallControl::NetworkCircuitRelease { brew_uuid, cause } ==> old(self).brew_individual_released(
                *final(self),
                old(queue)@,
                final(queue)@,
                brew_uuid,
                cause_or(cause, DisconnectCause::SwmiRequestedDisconnection),
            ),
            message matches CallControl::NetworkCircuitSetupRequest { brew_uuid, call } ==> old(self).network_setup_from(
                *final(self),
                old(queue)@,
                final(queue)@,
                brew_uuid,
                call.source_issi,
                call.destination,
                call.number@,
                call.priority,
                call.service,
                call.mode,
                call.duplex,
                call.communication,
                call.timeout,
                call.ownership,
                call.queued,
            ),
            message matches CallControl::NetworkCircuitConnectConfirm { brew_uuid, grant, permission } ==> old(
                self,
            ).connect_confirmed(*final(self), old(queue)@, final(queue)@, brew_uuid, grant, permission),
    {
        match message {
            CallControl::NetworkCallStart { brew_uuid, source_issi, dest_gssi, priority } => {
                self.rx_network_call_start(queue, brew_uuid, source_issi, dest_gssi, priority);
            },
            CallControl::NetworkCallEnd { brew_uuid } => {
                self.rx_network_call_end(queue, brew_uuid);
            },
            CallControl::NetworkCircuitSetupRequest { brew_uuid, call } => {
                self.rx_network_circuit_setup_request(queue, brew_uuid, &call);
            },
            CallControl::NetworkCircuitSetupAccept { .. } => {},
            CallControl::NetworkCircuitConnectRequest { brew_uuid, call } => {
                self.rx_network_circuit_connect_request(queue, brew_uuid, call.grant, call.permission);
            },
            CallControl::NetworkCircuitConnectConfirm { brew_uuid, grant, permission } => {
                self.rx_network_circuit_connect_confirm(queue, brew_uuid, grant, permission);
            },
            CallControl::NetworkCircuitSetupReject { brew_uuid, cause } => {
                self.rx_network_circuit_setup_reject(queue, brew_uuid, cause);
            },
            CallControl::NetworkCircuitAlert { brew_uuid } => {
                self.rx_network_circuit_alert(queue, brew_uuid);
            },
            CallControl::NetworkCircuitMediaReady { .. } => {},
            CallControl::NetworkCircuitRelease { brew_uuid, cause } => {
                self.rx_network_circuit_release(queue, brew_uuid, cause);
            },
        }
    }
}

/// An uplink CMCE PDU from an MS, as delivered by MLE.
pub struct LcmcUnitdataInd {
    /// The PDU bits, first transmitted first.
    pub sdu: Vec<bool>,
    pub received_address: TetraAddress,
    pub handle: u32,
    pub link_id: u32,
    pub endpoint_id: u32,
}

/// Where `route_xx_deliver` sends an uplink PDU.
#[derive(Debug, Clone, Copy, PartialEq, Eq, Structural)]
pub enum XxDelivery {
    /// To the handler that parses and acts on PDUs of this type.
    Handler(CmcePduTypeUl),
    /// A PDU type this base station does not implement (U-STATUS, U-CALL-RESTORE); ignored.
    Unimplemented(CmcePduTypeUl),
    /// Fewer than 5 bits; ignored.
    InsufficientBits,
    /// A reserved PDU type value; ignored.
    InvalidPduType(u64),
}

/// The first `n` bits of `bits` as a number, first bit most significant.
pub open spec fn bits_value(bits: Seq<bool>, n: nat) -> nat
    decreases n,
{
    if n == 0 { 0 } else { 2 * bits_value(bits, (n - 1) as nat) + if bits[n - 1] { 1nat } else { 0nat } }
}

/// The 5-bit PDU type field at the start of `bits`, if there are 5 bits.
pub open spec fn spec_peek_type(bits: Seq<bool>) -> Option<u64> {
    if bits.len() < 5 { None } else { Some(bits_value(bits, 5) as u64) }
}

/// An uplink PDU type that the call-control sub-entity never receives (SDS, facility and
/// function-not-supported PDUs belong to other sub-entities).
pub open spec fn foreign_ul_type(t: CmcePduTypeUl) -> bool {
    t is USdsData || t is UFacility || t is CmceFunctionNotSupported
}

/// The routing `route_xx_deliver` applies to a PDU.
pub open spec fn spec_xx_delivery(bits: Seq<bool>) -> XxDelivery {
    match spec_peek_type(bits) {
        None => XxDelivery::InsufficientBits,
        Some(v) => match spec_pdu_type_ul(v) {
            None => XxDelivery::InvalidPduType(v),
            Some(t) => if t is UStatus || t is UCallRestore {
                XxDelivery::Unimplemented(t)
            } else {
                XxDelivery::Handler(t)
            },
        },
    }
}

/// The actions on a transmission demand from one leg of active individual call `c`: the
/// requester gets the floor (uplink), the peer becomes the listener (downlink).
pub open spec fn individual_demand_actions(call_id: u16, c: IndividualCall, req: TetraAddress) -> Seq<CcAction> {
    let from_calling = req.ssi == c.calling_addr.ssi;
    let (peer, peer_ts, peer_usage) = if from_calling {
        (c.called_addr, c.called_ts, c.called_usage)
    } else {
        (c.calling_addr, c.calling_ts, c.calling_usage)
    };
    let (req_ts, req_usage) = if from_calling { (c.calling_ts, c.calling_usage) } else { (c.called_ts, c.called_usage) };
    seq![
        CcAction::DTxGrantedIndividual {
            call_id,
            to: req,
            ts: req_ts,
            usage: req_usage,
            assign: UlDlAssignment::Ul,
            grant: TransmissionGrant::Granted,
            transmitting_issi: req.ssi,
        },
        CcAction::DTxGrantedIndividual {
            call_id,
            to: peer,
            ts: peer_ts,
            usage: peer_usage,
            assign: UlDlAssignment::Dl,
            grant: TransmissionGrant::GrantedToOtherUser,
            transmitting_issi: req.ssi,
        },
    ]
}

/// The actions when one leg of active individual call `c` releases the floor: the sender is
/// told it ceased and becomes the listener, the peer gets the floor, UMAC (and Brew, for a call
/// with a leg there) learn of the grant.
pub open spec fn individual_ceased_actions(call_id: u16, c: IndividualCall, sender: TetraAddress) -> Seq<CcAction> {
    let from_calling = sender.ssi == c.calling_addr.ssi;
    let (s_ts, s_usage, peer, p_ts, p_usage) = if from_calling {
        (c.calling_ts, c.calling_usage, c.called_addr, c.called_ts, c.called_usage)
    } else {
        (c.called_ts, c.called_usage, c.calling_addr, c.calling_ts, c.calling_usage)
    };
    seq![
        CcAction::DTxCeasedIndividual { call_id, to: sender, ts: s_ts, usage: s_usage, assign: UlDlAssignment::Dl },
        CcAction::DTxGrantedIndividual {
            call_id,
            to: peer,
            ts: p_ts,
            usage: p_usage,
            assign: UlDlAssignment::Ul,
            grant: TransmissionGrant::Granted,
            transmitting_issi: peer.ssi,
        },
        CcAction::DTxGrantedIndividual {
            call_id,
            to: sender,
            ts: s_ts,
            usage: s_usage,
            assign: UlDlAssignment::Dl,
            grant: TransmissionGrant::GrantedToOtherUser,
            transmitting_issi: peer.ssi,
        },
        CcAction::FloorGranted { dest: ControlDest::Umac, call_id, source_issi: peer.ssi, dest_gssi: sender.ssi, ts: p_ts },
    ] + if (c.called_over_brew || c.calling_over_brew) && c.brew_uuid is Some {
        seq![CcAction::FloorGranted { dest: ControlDest::Brew, call_id, source_issi: peer.ssi, dest_gssi: sender.ssi, ts: p_ts }]
    } else {
        Seq::<CcAction>::empty()
    }
}

/// Read the 5-bit PDU type field at the start of `bits`.
fn peek_type(bits: &Vec<bool>) -> (r: Option<u64>)
    ensures
        r == spec_peek_type(bits@),
{
    if bits.len() < 5 {
        return None;
    }
    let mut v: u64 = 0;
    let mut i: usize = 0;
    while i < 5
        invariant
            5 <= bits@.len(),
            i <= 5,
            v == bits_value(bits@, i as nat),
            v < pow2_bound(i as nat),
        decreases 5 - i,
    {
        let b: u64 = if bits[i] { 1 } else { 0 };
        v = 2 * v + b;
        i = i + 1;
    }
    Some(v)
}

/// 2 to the power `i`, for `i` up to 5.
pub open spec fn pow2_bound(i: nat) -> nat {
    if i == 0 { 1 } else if i == 1 { 2 } else if i == 2 { 4 } else if i == 3 { 8 } else if i == 4 { 16 } else { 32 }
}

impl CcBsSubentity {
    /// Route an uplink CMCE PDU to its handler by its 5-bit type field. Short PDUs, reserved
    /// types and unimplemented types are ignored.
    pub fn route_xx_deliver(&self, message: &LcmcUnitdataInd) -> (r: XxDelivery)
        requires
            spec_peek_type(message.sdu@) matches Some(v) ==> (spec_pdu_type_ul(v) matches Some(t) ==> !foreign_ul_type(t)),
        ensures
            r == spec_xx_delivery(message.sdu@),
    {
        let bits = match peek_type(&message.sdu) {
            Some(b) => b,
            None => return XxDelivery::InsufficientBits,
        };
        let pdu_type = match CmcePduTypeUl::from_raw(bits) {
            Some(t) => t,
            None => return XxDelivery::InvalidPduType(bits),
        };
        match pdu_type {
            CmcePduTypeUl::UStatus | CmcePduTypeUl::UCallRestore => XxDelivery::Unimplemented(pdu_type),
            _ => XxDelivery::Handler(pdu_type),
        }
    }

    /// A parsed U-TX DEMAND for call `call_id`. On an active individual call the requester
    /// gets the floor at once; on a group call see `fsm_group_on_tx_demand` (its errors are
    /// only logged).
    pub fn fsm_on_u_tx_demand(&mut self, queue: &mut Vec<CcAction>, requesting_party: TetraAddress, call_id: u16)
        requires
            old(self).wf(),
        ensures
            final(self).wf(),
            final(self).subscribers() == old(self).subscribers(),
            final(self).listeners() == old(self).listeners(),
            final(self).individual() == old(self).individual(),
            final(self).setups() == old(self).setups(),
            final(self).circuit_mgr() == old(self).circuit_mgr(),
            final(self).routing() == old(self).routing(),
            final(self).spec_dltime() == old(self).spec_dltime(),
            old(self).individual().contains_key(call_id) ==> final(self).calls() == old(self).calls() && final(queue)@ == (if old(
                self,
            ).individual()[call_id].state == IndividualCallState::Active {
                old(queue)@ + individual_demand_actions(call_id, old(self).individual()[call_id], requesting_party)
            } else {
                old(queue)@
            }),
            !old(self).individual().contains_key(call_id) ==> exists|r: Result<(), GroupTransitionError>|
                old(self).tx_demand_handled(*final(self), old(queue)@, final(queue)@, call_id, requesting_party, r),
    {
        match self.individual_calls.get(&call_id) {
            Some(c) => {
                let c = *c;
                if !c.is_active() {
                    return;
                }
                let from_calling = requesting_party.ssi == c.calling_addr.ssi;
                let (peer, peer_ts, peer_usage) = if from_calling {
                    (c.called_addr, c.called_ts, c.called_usage)
                } else {
                    (c.calling_addr, c.calling_ts, c.calling_usage)
                };
                let (req_ts, req_usage) = if from_calling { (c.calling_ts, c.calling_usage) } else { (c.called_ts, c.called_usage) };
                queue.push(
                    CcAction::DTxGrantedIndividual {
                        call_id,
                        to: requesting_party,
                        ts: req_ts,
                        usage: req_usage,
                        assign: UlDlAssignment::Ul,
                        grant: TransmissionGrant::Granted,
                        transmitting_issi: requesting_party.ssi,
                    },
                );
                queue.push(
                    CcAction::DTxGrantedIndividual {
                        call_id,
                        to: peer,
                        ts: peer_ts,
                        usage: peer_usage,
                        assign: UlDlAssignment::Dl,
                        grant: TransmissionGrant::GrantedToOtherUser,
                        transmitting_issi: requesting_party.ssi,
                    },
                );
                assert(queue@ =~= old(queue)@ + individual_demand_actions(call_id, c, requesting_party));
            },
            None => {
                let r = self.fsm_group_on_tx_demand(queue, call_id, requesting_party);
            },
        }
    }

    /// A parsed U-TX CEASED for call `call_id`. On an active individual call the floor passes
    /// to the peer; on a group call see `fsm_group_on_tx_ceased` (its errors are only logged).
    pub fn fsm_on_u_tx_ceased(&mut self, queue: &mut Vec<CcAction>, sender: TetraAddress, call_id: u16)
        requires
            old(self).wf(),
        ensures
            final(self).wf(),
            final(self).subscribers() == old(self).subscribers(),
            final(self).listeners() == old(self).listeners(),
            final(self).individual() == old(self).individual(),
            final(self).setups() == old(self).setups(),
            final(self).circuit_mgr() == old(self).circuit_mgr(),
            final(self).routing() == old(self).routing(),
            final(self).spec_dltime() == old(self).spec_dltime(),
            old(self).individual().contains_key(call_id) ==> final(self).calls() == old(self).calls() && final(queue)@ == (if old(
                self,
            ).individual()[call_id].state == IndividualCallState::Active {
                old(queue)@ + individual_ceased_actions(call_id, old(self).individual()[call_id], sender)
            } else {
                old(queue)@
            }),
            !old(self).individual().contains_key(call_id) ==> exists|r: Result<(), GroupTransitionError>|
                old(self).tx_ceased_handled(*final(self), old(queue)@, final(queue)@, call_id, sender, r),
    {
        match self.individual_calls.get(&call_id) {
            Some(c) => {
                let c = *c;
                if !c.is_active() {
                    return;
                }
                let from_calling = sender.ssi == c.calling_addr.ssi;
                let (s_ts, s_usage, peer, p_ts, p_usage) = if from_calling {
                    (c.calling_ts, c.calling_usage, c.called_addr, c.called_ts, c.called_usage)
                } else {
                    (c.called_ts, c.called_usage, c.calling_addr, c.calling_ts, c.calling_usage)
                };
                queue.push(CcAction::DTxCeasedIndividual { call_id, to: sender, ts: s_ts, usage: s_usage, assign: UlDlAssignment::Dl });
                queue.push(
                    CcAction::DTxGrantedIndividual {
                        call_id,
                        to: peer,
                        ts: p_ts,
                        usage: p_usage,
                        assign: UlDlAssignment::Ul,
                        grant: TransmissionGrant::Granted,
                        transmitting_issi: peer.ssi,
                    },
                );
                queue.push(
                    CcAction::DTxGrantedIndividual {
                        call_id,
                        to: sender,
                        ts: s_ts,
                        usage: s_usage,
                        assign: UlDlAssignment::Dl,
                        grant: TransmissionGrant::GrantedToOtherUser,
                        transmitting_issi: peer.ssi,
                    },
                );
                queue.push(CcAction::FloorGranted { dest: ControlDest::Umac, call_id, source_issi: peer.ssi, dest_gssi: sender.ssi, ts: p_ts });
                if c.called_over_brew || c.calling_over_brew {
                    match c.brew_uuid {
                        Some(_) => {
                            queue.push(
                                CcAction::FloorGranted {
                                    dest: ControlDest::Brew,
                                    call_id,
                                    source_issi: peer.ssi,
                                    dest_gssi: sender.ssi,
                                    ts: p_ts,
                                },
                            );
                        },
                        None => {},
                    }
                }
                assert(queue@ =~= old(queue)@ + individual_ceased_actions(call_id, c, sender));
            },
            None => {
                let r = self.fsm_group_on_tx_ceased(queue, call_id, sender);
            },
        }
    }
}

/// In a well-formed call-control state, the listener counter of group `g` is the number of
/// registered subscribers affiliated to `g`, and `g` has a listener exactly when some
/// registered subscriber is affiliated to it.
pub proof fn lemma_listener_counts(s: &CcBsSubentity, g: u32)
    requires
        s.wf(),
    ensures
        s.listeners().contains_key(g) ==> s.listeners()[g] == listeners_of(s.subscribers(), g).len(),
        s.spec_has_listener(g) <==> exists|i: u32| #[trigger] s.subscribers().contains_key(i) && s.subscribers()[i].contains(g),
{
    let sg = s.subscribers();
    assert(listener_ok(s.listeners(), sg, g, 0));
    assert(sg.dom() =~= s.subscriber_groups@.dom());
    sg.dom().lemma_len_filter(|x: u32| sg[x].contains(g));
    let ls = listeners_of(sg, g);
    if exists|i: u32| #[trigger] sg.contains_key(i) && sg[i].contains(g) {
        let i = choose|i: u32| #[trigger] sg.contains_key(i) && sg[i].contains(g);
        assert(ls.contains(i));
    }
    if s.spec_has_listener(g) {
        assert(ls.len() > 0);
        let i = ls.choose();
        assert(ls.contains(i));
        assert(sg.contains_key(i) && sg[i].contains(g));
    }
}

} // verus!
