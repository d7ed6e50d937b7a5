//! Individual calls across Brew driven from the network side: an incoming set-up request for a
//! local MS, and the connect request / connect confirm that complete a call.
use vstd::prelude::*;
use crate::tdma::{CarrierSlot, Direction, SsiType, TetraAddress};
use crate::cmce::components::circuit_mgr::{CircuitMgr, CircuitModeType, CmceCircuit, CommunicationType, made_circuit};
use crate::cmce::cc_bs::call::{BasicService, CallTimeout, CallTimeoutSetupPhase, IndividualCall, IndividualCallState, NetworkCallParams};
use crate::cmce::cc_bs::pdu::{encode_external_subscriber_number, encodes_number};
use crate::cmce::cc_bs::subentity::{
    CcAction, CcBsSubentity, DisconnectCause, TransmissionGrant, calls_involving, spec_config_call_timeout,
};
use crate::cmce::cc_bs::subentity::p2p::both_opened;
use crate::cmce::type3::Type3FieldWide;

verus! {

/// A call as Brew describes it (NETWORK CIRCUIT SETUP REQUEST / CONNECT REQUEST), with its
/// fields as raw element values.
pub struct NetworkCircuitCall {
    pub source_issi: u32,
    pub destination: u32,
    /// Dialled external number, as text.
    pub number: String,
    pub priority: u8,
    pub service: u8,
    pub mode: u8,
    pub duplex: u8,
    pub method: u8,
    pub communication: u8,
    pub grant: u8,
    pub permission: u8,
    pub timeout: u8,
    pub ownership: u8,
    pub queued: u8,
}

/// Communication type of a raw element value (ETSI EN 300 392-2 clause 14.8.4).
pub open spec fn spec_comm_type_from_raw(raw: u8) -> Option<CommunicationType> {
    if raw == 0 {
        Some(CommunicationType::P2p)
    } else if raw == 1 {
        Some(CommunicationType::P2Mp)
    } else if raw == 2 {
        Some(CommunicationType::P2MpAck)
    } else if raw == 3 {
        Some(CommunicationType::Broadcast)
    } else {
        None
    }
}

pub fn comm_type_from_raw(raw: u8) -> (r: Option<CommunicationType>)
    ensures
        r == spec_comm_type_from_raw(raw),
{
    if raw == 0 {
        Some(CommunicationType::P2p)
    } else if raw == 1 {
        Some(CommunicationType::P2Mp)
    } else if raw == 2 {
        Some(CommunicationType::P2MpAck)
    } else if raw == 3 {
        Some(CommunicationType::Broadcast)
    } else {
        None
    }
}

/// Circuit mode type of a raw element value (ETSI EN 300 392-2 clause 14.8.5).
pub open spec fn spec_circuit_mode_from_raw(raw: u8) -> Option<CircuitModeType> {
    if raw == 0 {
        Some(CircuitModeType::TchS)
    } else if raw == 1 {
        Some(CircuitModeType::Tch72)
    } else if raw == 2 {
        Some(CircuitModeType::Tch48N1)
    } else if raw == 3 {
        Some(CircuitModeType::Tch48N4)
    } else if raw == 4 {
        Some(CircuitModeType::Tch48N8)
    } else if raw == 5 {
        Some(CircuitModeType::Tch24N1)
    } else if raw == 6 {
        Some(CircuitModeType::Tch24N4)
    } else if raw == 7 {
        Some(CircuitModeType::Tch24N8)
    } else {
        None
    }
}

pub fn circuit_mode_from_raw(raw: u8) -> (r: Option<CircuitModeType>)
    ensures
        r == spec_circuit_mode_from_raw(raw),
{
    if raw == 0 {
        Some(CircuitModeType::TchS)
    } else if raw == 1 {
        Some(CircuitModeType::Tch72)
    } else if raw == 2 {
        Some(CircuitModeType::Tch48N1)
    } else if raw == 3 {
        Some(CircuitModeType::Tch48N4)
    } else if raw == 4 {
        Some(CircuitModeType::Tch48N8)
    } else if raw == 5 {
        Some(CircuitModeType::Tch24N1)
    } else if raw == 6 {
        Some(CircuitModeType::Tch24N4)
    } else if raw == 7 {
        Some(CircuitModeType::Tch24N8)
    } else {
        None
    }
}

/// Call time-out of a raw element value (ETSI EN 300 392-2 clause 14.8.15); 15 is reserved.
pub open spec fn spec_call_timeout_from_raw(raw: u8) -> Option<CallTimeout> {
    if raw == 0 {
        Some(CallTimeout::Infinite)
    } else if raw == 1 {
        Some(CallTimeout::T30s)
    } else if raw == 2 {
        Some(CallTimeout::T45s)
    } else if raw == 3 {
        Some(CallTimeout::T60s)
    } else if raw == 4 {
        Some(CallTimeout::T2m)
    } else if raw == 5 {
        Some(CallTimeout::T3m)
    } else if raw == 6 {
        Some(CallTimeout::T4m)
    } else if raw == 7 {
        Some(CallTimeout::T5m)
    } else if raw == 8 {
        Some(CallTimeout::T6m)
    } else if raw == 9 {
        Some(CallTimeout::T8m)
    } else if raw == 10 {
        Some(CallTimeout::T10m)
    } else if raw == 11 {
        Some(CallTimeout::T12m)
    } else if raw == 12 {
        Some(CallTimeout::T15m)
    } else if raw == 13 {
        Some(CallTimeout::T20m)
    } else if raw == 14 {
        Some(CallTimeout::T30m)
    } else if raw == 15 {
        Some(CallTimeout::Reserved)
    } else {
        None
    }
}

pub fn call_timeout_from_raw(raw: u8) -> (r: Option<CallTimeout>)
    ensures
        r == spec_call_timeout_from_raw(raw),
{
    if raw == 0 {
        Some(CallTimeout::Infinite)
    } else if raw == 1 {
        Some(CallTimeout::T30s)
    } else if raw == 2 {
        Some(CallTimeout::T45s)
    } else if raw == 3 {
        Some(CallTimeout::T60s)
    } else if raw == 4 {
        Some(CallTimeout::T2m)
    } else if raw == 5 {
        Some(CallTimeout::T3m)
    } else if raw == 6 {
        Some(CallTimeout::T4m)
    } else if raw == 7 {
        Some(CallTimeout::T5m)
    } else if raw == 8 {
        Some(CallTimeout::T6m)
    } else if raw == 9 {
        Some(CallTimeout::T8m)
    } else if raw == 10 {
        Some(CallTimeout::T10m)
    } else if raw == 11 {
        Some(CallTimeout::T12m)
    } else if raw == 12 {
        Some(CallTimeout::T15m)
    } else if raw == 13 {
        Some(CallTimeout::T20m)
    } else if raw == 14 {
        Some(CallTimeout::T30m)
    } else if raw == 15 {
        Some(CallTimeout::Reserved)
    } else {
        None
    }
}

/// Transmission grant of the two low bits of a raw value (ETSI EN 300 392-2 clause 14.8.42).
pub open spec fn spec_grant_from_raw(raw: u8) -> TransmissionGrant {
    let v = raw % 4;
    if v == 0 {
        TransmissionGrant::Granted
    } else if v == 1 {
        TransmissionGrant::NotGranted
    } else if v == 2 {
        TransmissionGrant::RequestQueued
    } else {
        TransmissionGrant::GrantedToOtherUser
    }
}

pub fn grant_from_raw(raw: u8) -> (r: TransmissionGrant)
    ensures
        r == spec_grant_from_raw(raw),
{
    let v = raw % 4;
    if v == 0 {
        TransmissionGrant::Granted
    } else if v == 1 {
        TransmissionGrant::NotGranted
    } else if v == 2 {
        TransmissionGrant::RequestQueued
    } else {
        TransmissionGrant::GrantedToOtherUser
    }
}

/// `o`'s value, else `d`.
pub open spec fn or_else<A>(o: Option<A>, d: A) -> A {
    match o {
        Some(v) => v,
        None => d,
    }
}

/// The basic service Brew asks for in `call` (speech service as given, no end-to-end
/// encryption; unknown communication types count as individual, unknown modes as speech).
pub open spec fn network_service(mode: u8, communication: u8, service: u8) -> BasicService {
    BasicService {
        circuit_mode: or_else(spec_circuit_mode_from_raw(mode), CircuitModeType::TchS),
        encryption: false,
        comm_type: or_else(spec_comm_type_from_raw(communication), CommunicationType::P2p),
        speech_service: Some(service),
    }
}

impl CcBsSubentity {
    /// `new` and `q1` follow from `self` and `q0` once incoming Brew call `c.call_id` to
    /// `called` has circuit `c` (circuit manager now `m1`) and external number element `ext`.
    pub open spec fn network_call_made(
        self,
        new: Self,
        q0: Seq<CcAction>,
        q1: Seq<CcAction>,
        m1: CircuitMgr,
        ext: Option<Type3FieldWide>,
        brew_uuid: u128,
        source_issi: u32,
        called: TetraAddress,
        priority: u8,
        svc: BasicService,
        simplex_duplex: bool,
        call_timeout: CallTimeout,
        params: NetworkCallParams,
        c: CmceCircuit,
    ) -> bool {
        let call_id = c.call_id;
        &&& self.same_context(new)
        &&& new.circuit_mgr() == m1
        &&& new.setups() == self.setups().insert(call_id, called)
        &&& new.individual() == if self.individual().contains_key(call_id) {
            self.individual()
        } else {
            self.individual().insert(
                call_id,
                IndividualCall {
                    calling_addr: TetraAddress { ssi: source_issi, ssi_type: SsiType::Issi },
                    called_addr: called,
                    calling_handle: 0,
                    calling_link_id: 0,
                    calling_endpoint_id: 0,
                    called_handle: None,
                    called_link_id: None,
                    called_endpoint_id: None,
                    calling_carrier_num: c.carrier_num,
                    calling_ts: c.ts,
                    called_carrier_num: c.carrier_num,
                    called_ts: c.ts,
                    calling_usage: c.usage,
                    called_usage: c.usage,
                    simplex_duplex,
                    priority,
                    state: IndividualCallState::IncomingSetupPending,
                    setup_timer_started: Some(self.spec_dltime()),
                    setup_timeout: Some(CallTimeoutSetupPhase::T60s),
                    active_timer_started: None,
                    call_timeout,
                    called_over_brew: false,
                    calling_over_brew: true,
                    brew_uuid: Some(brew_uuid),
                    connect_request_sent: false,
                    floor_holder: None,
                    hook_method: true,
                    service: svc,
                    network_params: Some(params),
                },
            )
        }
        &&& q1 == q0 + seq![
            CcAction::NetworkCircuitSetupAccept { brew_uuid },
            CcAction::DSetupNetwork {
                call_id,
                to: called,
                calling_issi: source_issi,
                call_timeout,
                simplex_duplex,
                service: svc,
                priority,
                external_number: ext,
            },
        ]
    }

    /// `new` and `q1` follow from `self` and `q0` when Brew asks (session `brew_uuid`) to call
    /// local MS `destination` from `source_issi`. Brew is refused (called party not reachable)
    /// without a destination or when it is not registered here, refused (busy) when it is in an
    /// individual call, and refused (congestion) when no slot is free. Otherwise one circuit is
    /// allocated, Brew is told the set-up is accepted, D-SETUP goes to the called MS, and the
    /// call is recorded as an incoming set-up (unless the call identifier is taken).
    pub open spec fn network_setup_from(
        self,
        new: Self,
        q0: Seq<CcAction>,
        q1: Seq<CcAction>,
        brew_uuid: u128,
        source_issi: u32,
        destination: u32,
        number: Seq<char>,
        priority: u8,
        service: u8,
        mode: u8,
        duplex: u8,
        communication: u8,
        timeout: u8,
        ownership: u8,
        queued: u8,
    ) -> bool {
        let m = self.circuit_mgr();
        if destination == 0 || !self.subscribers().contains_key(destination) {
            self.network_rejected(new, q0, q1, brew_uuid, DisconnectCause::CalledPartyNotReachable)
        } else if !calls_involving(self.individual(), destination).is_empty() {
            self.network_rejected(new, q0, q1, brew_uuid, DisconnectCause::CalledPartyBusy)
        } else if m.free_slot(Direction::Both) is None {
            self.network_rejected(new, q0, q1, brew_uuid, DisconnectCause::CongestionInInfrastructure)
        } else {
            self.network_allocated(
                new,
                q0,
                q1,
                brew_uuid,
                source_issi,
                destination,
                number,
                priority,
                network_service(mode, communication, service),
                duplex != 0,
                or_else(spec_call_timeout_from_raw(timeout), CallTimeout::T5m),
                NetworkCallParams { priority, service, mode, communication, timeout, ownership, queued },
            )
        }
    }

    /// Brew's set-up request is refused with `cause`; nothing else changes.
    pub open spec fn network_rejected(self, new: Self, q0: Seq<CcAction>, q1: Seq<CcAction>, brew_uuid: u128, cause: DisconnectCause) -> bool {
        &&& self.same_context(new)
        &&& new.setups() == self.setups()
        &&& new.individual() == self.individual()
        &&& self.circuit_mgr().same_views(new.circuit_mgr())
        &&& q1 == q0.push(CcAction::NetworkCircuitSetupReject { brew_uuid, cause })
    }

    /// Brew's set-up request gets the circuit on the first free slot (see `network_call_made`).
    pub open spec fn network_allocated(
        self,
        new: Self,
        q0: Seq<CcAction>,
        q1: Seq<CcAction>,
        brew_uuid: u128,
        source_issi: u32,
        destination: u32,
        number: Seq<char>,
        priority: u8,
        svc: BasicService,
        simplex_duplex: bool,
        call_timeout: CallTimeout,
        params: NetworkCallParams,
    ) -> bool {
        let m = self.circuit_mgr();
        let c = made_circuit(
            m.dltime,
            Direction::Both,
            m.free_slot(Direction::Both).unwrap(),
            m.spec_next_call_id(),
            m.spec_next_usage(),
            svc.comm_type,
            simplex_duplex,
        );
        exists|m1: CircuitMgr, ext: Option<Type3FieldWide>|
            #![trigger both_opened(m, m1, c, true), encodes_number(number, ext)]
            encodes_number(number, ext) && both_opened(m, m1, c, true) && self.network_call_made(
                new,
                q0,
                q1,
                m1,
                ext,
                brew_uuid,
                source_issi,
                TetraAddress { ssi: destination, ssi_type: SsiType::Issi },
                priority,
                svc,
                simplex_duplex,
                call_timeout,
                params,
                c,
            )
    }

    /// Brew asks (session `brew_uuid`) to set up `call` to a local MS (see `network_setup_from`).
    #[verifier::spinoff_prover]
    pub fn rx_network_circuit_setup_request(&mut self, queue: &mut Vec<CcAction>, brew_uuid: u128, call: &NetworkCircuitCall)
        requires
            old(self).wf(),
        ensures
            final(self).wf(),
            old(self).network_setup_from(
                *final(self),
                old(queue)@,
                final(queue)@,
                brew_uuid,
                call.source_issi,
                call.destination,
                call.number@,
                call.priority,
                call.service,
                call.mode,
                call.duplex,
                call.communication,
                call.timeout,
                call.ownership,
                call.queued,
            ),
    {
        let called = TetraAddress { ssi: call.destination, ssi_type: SsiType::Issi };
        if call.destination == 0 || !self.subscriber_groups.contains_key(&call.destination) {
            queue.push(CcAction::NetworkCircuitSetupReject { brew_uuid, cause: DisconnectCause::CalledPartyNotReachable });
            return;
        }
        if self.involved_in_individual_call(call.destination) {
            queue.push(CcAction::NetworkCircuitSetupReject { brew_uuid, cause: DisconnectCause::CalledPartyBusy });
            return;
        }
        let comm = match comm_type_from_raw(call.communication) {
            Some(c) => c,
            None => CommunicationType::P2p,
        };
        let mode = match circuit_mode_from_raw(call.mode) {
            Some(m) => m,
            None => CircuitModeType::TchS,
        };
        let simplex_duplex = call.duplex != 0;
        let ghost s0 = *self;
        let c = match self.circuits.allocate_circuit(Direction::Both, comm, simplex_duplex) {
            Ok(c) => c,
            Err(_) => {
                queue.push(CcAction::NetworkCircuitSetupReject { brew_uuid, cause: DisconnectCause::CongestionInInfrastructure });
                return;
            },
        };
        let ghost m1 = self.circuits;
        let call_id = c.call_id;
        let call_timeout = match call_timeout_from_raw(call.timeout) {
            Some(t) => t,
            None => CallTimeout::T5m,
        };
        let service = BasicService { circuit_mode: mode, encryption: false, comm_type: comm, speech_service: Some(call.service) };
        let external_number = encode_external_subscriber_number(call.number.as_str());
        queue.push(CcAction::NetworkCircuitSetupAccept { brew_uuid });
        queue.push(
            CcAction::DSetupNetwork {
                call_id,
                to: called,
                calling_issi: call.source_issi,
                call_timeout,
                simplex_duplex,
                service,
                priority: call.priority,
                external_number,
            },
        );
        self.cached_setups.insert(call_id, called);
        let params = NetworkCallParams {
            priority: call.priority,
            service: call.service,
            mode: call.mode,
            communication: call.communication,
            timeout: call.timeout,
            ownership: call.ownership,
            queued: call.queued,
        };
        let record = IndividualCall {
            calling_addr: TetraAddress { ssi: call.source_issi, ssi_type: SsiType::Issi },
            called_addr: called,
            calling_handle: 0,
            calling_link_id: 0,
            calling_endpoint_id: 0,
            called_handle: None,
            called_link_id: None,
            called_endpoint_id: None,
            calling_carrier_num: c.carrier_num,
            calling_ts: c.ts,
            called_carrier_num: c.carrier_num,
            called_ts: c.ts,
            calling_usage: c.usage,
            called_usage: c.usage,
            simplex_duplex,
            priority: call.priority,
            state: IndividualCallState::IncomingSetupPending,
            setup_timer_started: Some(self.dltime),
            setup_timeout: Some(CallTimeoutSetupPhase::T60s),
            active_timer_started: None,
            call_timeout,
            called_over_brew: false,
            calling_over_brew: true,
            brew_uuid: Some(brew_uuid),
            connect_request_sent: false,
            floor_holder: None,
            hook_method: true,
            service,
            network_params: Some(params),
        };
        let r = self.fsm_individual_create_setup_call(call_id, record);
        proof {
            assert(both_opened(s0.circuit_mgr(), m1, c, true));
            assert(self.cached_setups@ =~= s0.setups().insert(call_id, called));
            assert(queue@ =~= old(queue)@ + seq![
                CcAction::NetworkCircuitSetupAccept { brew_uuid },
                CcAction::DSetupNetwork {
                    call_id,
                    to: called,
                    calling_issi: call.source_issi,
                    call_timeout,
                    simplex_duplex,
                    service,
                    priority: call.priority,
                    external_number,
                },
            ]);
            if s0.individual().contains_key(call_id) {
                assert(self.individual() == s0.individual());
            } else {
                assert(self.individual() == s0.individual().insert(call_id, record));
            }
            assert(s0.network_call_made(
                *self,
                old(queue)@,
                queue@,
                m1,
                external_number,
                brew_uuid,
                call.source_issi,
                called,
                call.priority,
                service,
                simplex_duplex,
                call_timeout,
                params,
                c,
            ));
        }
    }
}

/// Individual call `c` once connected at `now`.
pub open spec fn activated(c: IndividualCall, now: crate::tdma::TdmaTime) -> IndividualCall {
    IndividualCall {
        state: IndividualCallState::Active,
        setup_timer_started: None,
        setup_timeout: None,
        active_timer_started: Some(now),
        connect_request_sent: false,
        ..c
    }
}

impl CcBsSubentity {
    /// `new` and `q1` follow from `self` and `q0` when Brew confirms the connect of Brew-originated
    /// call `id` (session `brew_uuid`) with raw `grant` and `permission`. Nothing happens for a
    /// call not originated over Brew, one already active, or one whose called MS has not yet
    /// answered (no link context); otherwise D-CONNECT ACKNOWLEDGE goes to the called MS, its leg
    /// is opened with network media (basic service of the cached D-SETUP, else speech), the call
    /// becomes active and Brew is told the media path is ready.
    pub open spec fn confirm_on(
        self,
        new: Self,
        q0: Seq<CcAction>,
        q1: Seq<CcAction>,
        id: u16,
        brew_uuid: u128,
        grant: u8,
        permission: u8,
    ) -> bool {
        let c = self.individual()[id];
        if !c.calling_over_brew || c.state == IndividualCallState::Active || c.called_handle is None
            || c.called_link_id is None || c.called_endpoint_id is None {
            new.individual() == self.individual() && q1 == q0
        } else {
            let svc = if self.setups().contains_key(id) {
                c.service
            } else {
                BasicService {
                    circuit_mode: CircuitModeType::TchS,
                    encryption: false,
                    comm_type: CommunicationType::P2p,
                    speech_service: Some(0),
                }
            };
            &&& new.individual() == self.individual().insert(id, activated(c, self.spec_dltime()))
            &&& q1 == q0 + seq![
                CcAction::DConnectAckNetwork {
                    call_id: id,
                    to: c.called_addr,
                    handle: c.called_handle.unwrap(),
                    link_id: c.called_link_id.unwrap(),
                    endpoint_id: c.called_endpoint_id.unwrap(),
                    grant: spec_grant_from_raw(grant),
                    permission: permission != 0,
                    usage: c.called_usage,
                    ts: c.called_ts,
                },
                CcAction::NetworkCircuitOpen {
                    circuit: CmceCircuit {
                        ts_created: self.spec_dltime(),
                        direction: Direction::Both,
                        ts: c.called_ts,
                        carrier_num: c.called_carrier_num,
                        call_id: id,
                        usage: c.called_usage,
                        circuit_mode: svc.circuit_mode,
                        comm_type: svc.comm_type,
                        simplex_duplex: c.simplex_duplex,
                        speech_service: svc.speech_service,
                        etee_encrypted: svc.encryption,
                    },
                },
                CcAction::NetworkCircuitMediaReady { brew_uuid, call_id: id, ts: c.called_ts },
            ]
        }
    }

    /// `new` and `q1` follow from `self` and `q0` on Brew's connect confirm for session
    /// `brew_uuid`: applied to an individual call carrying that session (see `confirm_on`);
    /// nothing happens when none does.
    pub open spec fn connect_confirmed(self, new: Self, q0: Seq<CcAction>, q1: Seq<CcAction>, brew_uuid: u128, grant: u8, permission: u8) -> bool {
        &&& self.same_context(new)
        &&& new.setups() == self.setups()
        &&& new.circuit_mgr() == self.circuit_mgr()
        &&& (forall|id: u16| #[trigger] self.individual().contains_key(id) ==> self.individual()[id].brew_uuid != Some(brew_uuid))
            ==> new.individual() == self.individual() && q1 == q0
        &&& (exists|id: u16| #[trigger] self.individual().contains_key(id) && self.individual()[id].brew_uuid == Some(brew_uuid))
            ==> exists|id: u16|
            #[trigger] self.individual().contains_key(id) && self.individual()[id].brew_uuid == Some(brew_uuid)
                && self.confirm_on(new, q0, q1, id, brew_uuid, grant, permission)
    }

    /// Brew confirms the connect of a Brew-originated call (see `connect_confirmed`).
    pub fn rx_network_circuit_connect_confirm(&mut self, queue: &mut Vec<CcAction>, brew_uuid: u128, grant: u8, permission: u8)
        requires
            old(self).wf(),
        ensures
            final(self).wf(),
            old(self).connect_confirmed(*final(self), old(queue)@, final(queue)@, brew_uuid, grant, permission),
    {
        let id = match self.find_brew_individual_call(brew_uuid) {
            Some(id) => id,
            None => return,
        };
        self.confirm_connect_of(queue, id, brew_uuid, grant, permission);
    }

    /// Brew's connect confirm applied to individual call `id`, which carries session
    /// `brew_uuid` (see `confirm_on`).
    fn confirm_connect_of(&mut self, queue: &mut Vec<CcAction>, id: u16, brew_uuid: u128, grant: u8, permission: u8)
        requires
            old(self).wf(),
            old(self).individual().contains_key(id),
            old(self).individual()[id].brew_uuid == Some(brew_uuid),
        ensures
            final(self).wf(),
            old(self).same_context(*final(self)),
            final(self).setups() == old(self).setups(),
            final(self).circuit_mgr() == old(self).circuit_mgr(),
            old(self).confirm_on(*final(self), old(queue)@, final(queue)@, id, brew_uuid, grant, permission),
    {
        let c = *self.individual_calls.get(&id).unwrap();
        if !c.calling_over_brew || c.is_active() {
            return;
        }
        let (handle, link_id, endpoint_id) = match (c.called_handle, c.called_link_id, c.called_endpoint_id) {
            (Some(h), Some(l), Some(e)) => (h, l, e),
            _ => return,
        };
        let svc = if self.cached_setups.contains_key(&id) {
            c.service
        } else {
            BasicService {
                circuit_mode: CircuitModeType::TchS,
                encryption: false,
                comm_type: CommunicationType::P2p,
                speech_service: Some(0),
            }
        };
        let a1 = CcAction::DConnectAckNetwork {
            call_id: id,
            to: c.called_addr,
            handle,
            link_id,
            endpoint_id,
            grant: grant_from_raw(grant),
            permission: permission != 0,
            usage: c.called_usage,
            ts: c.called_ts,
        };
        queue.push(a1);
        let a2 = CcAction::NetworkCircuitOpen {
                circuit: CmceCircuit {
                    ts_created: self.dltime,
                    direction: Direction::Both,
                    ts: c.called_ts,
                    carrier_num: c.called_carrier_num,
                    call_id: id,
                    usage: c.called_usage,
                    circuit_mode: svc.circuit_mode,
                    comm_type: svc.comm_type,
                    simplex_duplex: c.simplex_duplex,
                    speech_service: svc.speech_service,
                    etee_encrypted: svc.encryption,
                },
            };
        queue.push(a2);
        let r = self.fsm_individual_transition_to_active(id);
        let a3 = CcAction::NetworkCircuitMediaReady { brew_uuid, call_id: id, ts: c.called_ts };
        queue.push(a3);
        proof {
            assert(queue@ =~= old(queue)@ + seq![a1, a2, a3]);
            assert(old(self).confirm_on(*self, old(queue)@, queue@, id, brew_uuid, grant, permission));
        }
    }

    /// `new` and `q1` follow from `self` and `q0` when Brew reports that the called party of
    /// locally originated call `id` (session `brew_uuid`) answered: nothing happens once the
    /// call is active; otherwise D-CONNECT (transmission granted) goes to the caller, its leg is
    /// opened with network media, the call becomes active, and Brew gets the connect confirm and
    /// the media-ready notice.
    pub open spec fn connect_request_on(self, new: Self, q0: Seq<CcAction>, q1: Seq<CcAction>, id: u16, brew_uuid: u128) -> bool {
        let c = self.individual()[id];
        if c.state == IndividualCallState::Active {
            new.individual() == self.individual() && q1 == q0
        } else {
            &&& new.individual() == self.individual().insert(id, activated(c, self.spec_dltime()))
            &&& q1 == q0 + seq![
                CcAction::DConnectIndividual {
                    call_id: id,
                    to: c.calling_addr,
                    handle: c.calling_handle,
                    link_id: c.calling_link_id,
                    endpoint_id: c.calling_endpoint_id,
                    call_timeout: spec_config_call_timeout(self.spec_call_timeout_secs()),
                    hook_method: c.simplex_duplex,
                    simplex_duplex: c.simplex_duplex,
                    grant: TransmissionGrant::Granted,
                    usage: c.calling_usage,
                    ts: c.calling_ts,
                    stealing: false,
                },
                CcAction::NetworkCircuitOpen {
                    circuit: CmceCircuit {
                        ts_created: self.spec_dltime(),
                        direction: Direction::Both,
                        ts: c.calling_ts,
                        carrier_num: c.calling_carrier_num,
                        call_id: id,
                        usage: c.calling_usage,
                        circuit_mode: CircuitModeType::TchS,
                        comm_type: CommunicationType::P2p,
                        simplex_duplex: c.simplex_duplex,
                        speech_service: Some(0),
                        etee_encrypted: false,
                    },
                },
                CcAction::NetworkCircuitConnectConfirm { brew_uuid },
                CcAction::NetworkCircuitMediaReady { brew_uuid, call_id: id, ts: c.calling_ts },
            ]
        }
    }

    /// `new` and `q1` follow from `self` and `q0` on NETWORK CIRCUIT CONNECT REQUEST for session
    /// `brew_uuid` with Brew's raw `grant` and `permission`: the individual call carrying the
    /// session takes it as a connect confirm when Brew originated it (`confirm_on`), as the
    /// called party's answer otherwise (`connect_request_on`); with no such call nothing changes.
    pub open spec fn connect_requested(self, new: Self, q0: Seq<CcAction>, q1: Seq<CcAction>, brew_uuid: u128, grant: u8, permission: u8) -> bool {
        &&& self.same_context(new)
        &&& new.setups() == self.setups()
        &&& new.circuit_mgr() == self.circuit_mgr()
        &&& (forall|id: u16| #[trigger] self.individual().contains_key(id) ==> self.individual()[id].brew_uuid != Some(brew_uuid))
            ==> new == self && q1 == q0
        &&& (exists|id: u16| #[trigger] self.individual().contains_key(id) && self.individual()[id].brew_uuid == Some(brew_uuid))
            ==> exists|id: u16|
            #[trigger] self.individual().contains_key(id) && self.individual()[id].brew_uuid == Some(brew_uuid)
                && (if self.individual()[id].calling_over_brew {
                    self.confirm_on(new, q0, q1, id, brew_uuid, grant, permission)
                } else {
                    self.connect_request_on(new, q0, q1, id, brew_uuid)
                })
    }

    /// Brew reports that the called party of a call answered (NETWORK CIRCUIT CONNECT REQUEST,
    /// carrying Brew's raw `grant` and `permission`): for a locally originated call see
    /// `connect_request_on`; a Brew-originated call takes it as a connect confirm
    /// (`confirm_on`); nothing happens when no individual call carries session `brew_uuid`.
    pub fn rx_network_circuit_connect_request(&mut self, queue: &mut Vec<CcAction>, brew_uuid: u128, grant: u8, permission: u8)
        requires
            old(self).wf(),
        ensures
            final(self).wf(),
            old(self).connect_requested(*final(self), old(queue)@, final(queue)@, brew_uuid, grant, permission),
    {
        let id = match self.find_brew_individual_call(brew_uuid) {
            Some(id) => id,
            None => return,
        };
        let c = *self.individual_calls.get(&id).unwrap();
        if c.calling_over_brew {
            self.confirm_connect_of(queue, id, brew_uuid, grant, permission);
            return;
        }
        if c.is_active() {
            return;
        }
        let timeout = self.config_call_timeout();
        let a1 = CcAction::DConnectIndividual {
                call_id: id,
                to: c.calling_addr,
                handle: c.calling_handle,
                link_id: c.calling_link_id,
                endpoint_id: c.calling_endpoint_id,
                call_timeout: timeout,
                hook_method: c.simplex_duplex,
                simplex_duplex: c.simplex_duplex,
                grant: TransmissionGrant::Granted,
                usage: c.calling_usage,
                ts: c.calling_ts,
                stealing: false,
            };
        queue.push(a1);
        let a2 = CcAction::NetworkCircuitOpen {
                circuit: CmceCircuit {
                    ts_created: self.dltime,
                    direction: Direction::Both,
                    ts: c.calling_ts,
                    carrier_num: c.calling_carrier_num,
                    call_id: id,
                    usage: c.calling_usage,
                    circuit_mode: CircuitModeType::TchS,
                    comm_type: CommunicationType::P2p,
                    simplex_duplex: c.simplex_duplex,
                    speech_service: Some(0),
                    etee_encrypted: false,
                },
            };
        queue.push(a2);
        let r = self.fsm_individual_transition_to_active(id);
        let a3 = CcAction::NetworkCircuitConnectConfirm { brew_uuid };
        queue.push(a3);
        let a4 = CcAction::NetworkCircuitMediaReady { brew_uuid, call_id: id, ts: c.calling_ts };
        queue.push(a4);
        proof {
            assert(queue@ =~= old(queue)@ + seq![a1, a2, a3, a4]);
            assert(old(self).connect_request_on(*self, old(queue)@, queue@, id, brew_uuid));
        }
    }
}

} // verus!
