//! Set-up of individual calls from an MS of this cell to a party behind Brew.
use vstd::prelude::*;
use crate::tdma::{CarrierSlot, Direction, TetraAddress};
use crate::cmce::components::circuit_mgr::{CircuitMgr, CmceCircuit, made_circuit};
use crate::cmce::cc_bs::call::{CallTimeout, CallTimeoutSetupPhase, IndividualCall, IndividualCallState};
use crate::cmce::cc_bs::subentity::{CcAction, CcBsSubentity, DisconnectCause, calls_involving};
use crate::cmce::cc_bs::subentity::setup::USetup;
use crate::cmce::cc_bs::subentity::p2p::{both_opened, new_individual_call, p2p_call_timeout, slot_of_circuit};
use crate::net_brew::brew_routable::{is_active, is_brew_issi_routable, spec_issi_routable};
use crate::net_brew::session_id::new_session_uuid;

verus! {

/// The NETWORK CIRCUIT SETUP REQUEST for a call from `source_issi` to `destination` set up with
/// `pdu` under Brew session `brew_uuid`.
pub open spec fn network_setup_request(brew_uuid: u128, source_issi: u32, destination: u32, pdu: USetup) -> CcAction {
    CcAction::NetworkCircuitSetupRequest {
        brew_uuid,
        source_issi,
        destination,
        external_number: pdu.external_subscriber_number,
        priority: pdu.call_priority,
        service: match pdu.service.speech_service {
            Some(s) => s,
            None => 0,
        },
        mode: pdu.service.circuit_mode,
        duplex: pdu.simplex_duplex,
        method: pdu.hook_method,
        communication: pdu.service.comm_type,
        permission: pdu.request_to_transmit,
        timeout: p2p_call_timeout(pdu.simplex_duplex),
    }
}

impl CcBsSubentity {
    /// `new` and `q1` follow from `self` and `q0` when `calling` sets up a call to `called`
    /// behind Brew with `pdu` under session `brew_uuid`. It is refused (with D-RELEASE over the
    /// caller's link context) when Brew is not configured or the backhaul is down (requested
    /// service not available), when the caller is already in an individual call (concurrent
    /// set-up not supported), when the caller may not use Brew, or when a called ISSI may not
    /// be reached over Brew and no external number was dialled (called party not reachable), or
    /// when no slot is free (congestion). Otherwise one circuit serves the caller, Brew is asked
    /// to set the call up (with destination 0 when only the external number can be reached),
    /// and the call is recorded, its set-up aborted when the identifier is taken.
    pub open spec fn brew_setup_from(
        self,
        new: Self,
        q0: Seq<CcAction>,
        q1: Seq<CcAction>,
        handle: u32,
        link_id: u32,
        endpoint_id: u32,
        calling: TetraAddress,
        called: TetraAddress,
        pdu: USetup,
        brew_uuid: u128,
    ) -> bool {
        let m = self.circuit_mgr();
        let routing = self.routing();
        let dest0: u32 = match pdu.called_party_ssi {
            Some(d) => d,
            None => 0,
        };
        let has_ext = pdu.external_subscriber_number is Some || pdu.called_party_short_number is Some;
        let dest_routable = dest0 == 0 || spec_issi_routable(&routing, dest0);
        let refused = |cause: DisconnectCause|
            self.refused_on(m, new, q0, q1, handle, link_id, endpoint_id, calling, cause);
        if routing.brew is None {
            refused(DisconnectCause::RequestedServiceNotAvailable)
        } else if !calls_involving(self.individual(), calling.ssi).is_empty() {
            refused(DisconnectCause::ConcurrentSetUpNotSupported)
        } else if !self.spec_network_connected() {
            refused(DisconnectCause::RequestedServiceNotAvailable)
        } else if !spec_issi_routable(&routing, calling.ssi) {
            refused(DisconnectCause::CalledPartyNotReachable)
        } else if !has_ext && !dest_routable {
            refused(DisconnectCause::CalledPartyNotReachable)
        } else {
            let dest: u32 = if dest_routable { dest0 } else { 0 };
            match m.free_slot(Direction::Both) {
                None => refused(DisconnectCause::CongestionInInfrastructure),
                Some(s1) => {
                    let call_id = m.spec_next_call_id();
                    let c = made_circuit(
                        m.dltime,
                        Direction::Both,
                        s1,
                        call_id,
                        m.spec_next_usage(),
                        pdu.service.comm_type,
                        pdu.simplex_duplex,
                    );
                    let q = q0 + seq![
                        CcAction::DCallProceeding {
                            call_id,
                            to: calling,
                            handle,
                            link_id,
                            endpoint_id,
                            setup_timeout: CallTimeoutSetupPhase::T60s,
                            hook_method: pdu.hook_method,
                            simplex_duplex: pdu.simplex_duplex,
                        },
                        network_setup_request(brew_uuid, calling.ssi, dest, pdu),
                    ];
                    exists|m1: CircuitMgr|
                        {
                            &&& both_opened(m, m1, c, true)
                            &&& self.individual().contains_key(call_id) ==> exists|s: Self|
                                {
                                    &&& self.same_context(s)
                                    &&& s.setups() == self.setups()
                                    &&& s.individual() == self.individual()
                                    &&& s.circuit_mgr() == m1
                                    &&& s.setup_aborted(
                                        new,
                                        q,
                                        q1,
                                        call_id,
                                        calling,
                                        handle,
                                        link_id,
                                        endpoint_id,
                                        slot_of_circuit(c),
                                        slot_of_circuit(c),
                                        DisconnectCause::NoIdleCcEntity,
                                    )
                                }
                            &&& !self.individual().contains_key(call_id) ==> {
                                &&& self.same_context(new)
                                &&& new.setups() == self.setups()
                                &&& new.circuit_mgr() == m1
                                &&& new.individual() == self.individual().insert(
                                    call_id,
                                    new_individual_call(
                                        calling,
                                        called,
                                        handle,
                                        link_id,
                                        endpoint_id,
                                        c,
                                        c,
                                        pdu,
                                        self.spec_dltime(),
                                        CallTimeoutSetupPhase::T60s,
                                        p2p_call_timeout(pdu.simplex_duplex),
                                        true,
                                        Some(brew_uuid),
                                    ),
                                )
                                &&& q1 == q
                            }
                        }
                },
            }
        }
    }

    /// U-SETUP of an individual call from `calling` (over link context
    /// `handle`/`link_id`/`endpoint_id`) to `called` behind Brew, under Brew session `brew_uuid`
    /// (see `brew_setup_from`).
    pub fn fsm_on_u_setup_p2p_over_brew_session(
        &mut self,
        queue: &mut Vec<CcAction>,
        handle: u32,
        link_id: u32,
        endpoint_id: u32,
        calling: TetraAddress,
        called: TetraAddress,
        pdu: USetup,
        brew_uuid: u128,
    )
        requires
            old(self).wf(),
        ensures
            final(self).wf(),
            old(self).brew_setup_from(*final(self), old(queue)@, final(queue)@, handle, link_id, endpoint_id, calling, called, pdu, brew_uuid),
    {
        let dest0: u32 = match pdu.called_party_ssi {
            Some(d) => d,
            None => 0,
        };
        if !is_active(&self.config.routing) {
            self.reject_setup_request(queue, handle, link_id, endpoint_id, calling, DisconnectCause::RequestedServiceNotAvailable);
            return;
        }
        if self.involved_in_individual_call(calling.ssi) {
            self.reject_setup_request(queue, handle, link_id, endpoint_id, calling, DisconnectCause::ConcurrentSetUpNotSupported);
            return;
        }
        if !self.config.network_connected {
            self.reject_setup_request(queue, handle, link_id, endpoint_id, calling, DisconnectCause::RequestedServiceNotAvailable);
            return;
        }
        if !is_brew_issi_routable(&self.config.routing, calling.ssi) {
            self.reject_setup_request(queue, handle, link_id, endpoint_id, calling, DisconnectCause::CalledPartyNotReachable);
            return;
        }
        let has_ext = pdu.external_subscriber_number.is_some() || pdu.called_party_short_number.is_some();
        let dest_routable = dest0 == 0 || is_brew_issi_routable(&self.config.routing, dest0);
        if !has_ext && !dest_routable {
            self.reject_setup_request(queue, handle, link_id, endpoint_id, calling, DisconnectCause::CalledPartyNotReachable);
            return;
        }
        let dest: u32 = if dest_routable { dest0 } else { 0 };
        let ghost s0 = *self;
        let c = match self.circuits.allocate_circuit(Direction::Both, pdu.service.comm_type, pdu.simplex_duplex) {
            Ok(c) => c,
            Err(_) => {
                self.reject_setup_request(
                    queue,
                    handle,
                    link_id,
                    endpoint_id,
                    calling,
                    DisconnectCause::CongestionInInfrastructure,
                );
                return;
            },
        };
        let ghost m1 = self.circuits;
        let call_id = c.call_id;
        let timeout = if pdu.simplex_duplex { CallTimeout::Infinite } else { CallTimeout::T5m };
        queue.push(
            CcAction::DCallProceeding {
                call_id,
                to: calling,
                handle,
                link_id,
                endpoint_id,
                setup_timeout: CallTimeoutSetupPhase::T60s,
                hook_method: pdu.hook_method,
                simplex_duplex: pdu.simplex_duplex,
            },
        );
        let service: u8 = match pdu.service.speech_service {
            Some(s) => s,
            None => 0,
        };
        queue.push(
            CcAction::NetworkCircuitSetupRequest {
                brew_uuid,
                source_issi: calling.ssi,
                destination: dest,
                external_number: pdu.external_subscriber_number,
                priority: pdu.call_priority,
                service,
                mode: pdu.service.circuit_mode,
                duplex: pdu.simplex_duplex,
                method: pdu.hook_method,
                communication: pdu.service.comm_type,
                permission: pdu.request_to_transmit,
                timeout,
            },
        );
        let ghost s_before = *self;
        let ghost q_pushed = queue@;
        proof {
            assert(q_pushed =~= old(queue)@ + seq![
                CcAction::DCallProceeding {
                    call_id,
                    to: calling,
                    handle,
                    link_id,
                    endpoint_id,
                    setup_timeout: CallTimeoutSetupPhase::T60s,
                    hook_method: pdu.hook_method,
                    simplex_duplex: pdu.simplex_duplex,
                },
                network_setup_request(brew_uuid, calling.ssi, dest, pdu),
            ]);
        }
        let call = IndividualCall {
            calling_addr: calling,
            called_addr: called,
            calling_handle: handle,
            calling_link_id: link_id,
            calling_endpoint_id: endpoint_id,
            called_handle: None,
            called_link_id: None,
            called_endpoint_id: None,
            calling_carrier_num: c.carrier_num,
            calling_ts: c.ts,
            called_carrier_num: c.carrier_num,
            called_ts: c.ts,
            calling_usage: c.usage,
            called_usage: c.usage,
            simplex_duplex: pdu.simplex_duplex,
            priority: pdu.call_priority,
            state: IndividualCallState::CallSetupPending,
            setup_timer_started: Some(self.dltime),
            setup_timeout: Some(CallTimeoutSetupPhase::T60s),
            active_timer_started: None,
            call_timeout: timeout,
            called_over_brew: true,
            calling_over_brew: false,
            brew_uuid: Some(brew_uuid),
            connect_request_sent: false,
            floor_holder: None,
            hook_method: pdu.hook_method,
            service: pdu.service,
            network_params: None,
        };
        let slot = CarrierSlot { carrier_num: c.carrier_num, ts: c.ts };
        match self.fsm_individual_create_setup_call(call_id, call) {
            Ok(()) => {},
            Err(_) => {
                self.abort_individual_setup(
                    queue,
                    call_id,
                    calling,
                    handle,
                    link_id,
                    endpoint_id,
                    slot,
                    slot,
                    DisconnectCause::NoIdleCcEntity,
                );
                proof {
                    assert(s0.same_context(s_before));
                    assert(slot == slot_of_circuit(c));
                }
            },
        }
        proof {
            assert(both_opened(s0.circuit_mgr(), m1, c, true));
            if !s0.individual().contains_key(call_id) {
                assert(s0.same_context(*self));
                assert(self.setups() == s0.setups());
                assert(self.circuit_mgr() == m1);
                assert(queue@ == q_pushed);
                assert(self.individual() == s0.individual().insert(
                    call_id,
                    new_individual_call(
                        calling,
                        called,
                        handle,
                        link_id,
                        endpoint_id,
                        c,
                        c,
                        pdu,
                        s0.spec_dltime(),
                        CallTimeoutSetupPhase::T60s,
                        p2p_call_timeout(pdu.simplex_duplex),
                        true,
                        Some(brew_uuid),
                    ),
                ));
            }
        }
    }

    /// U-SETUP of an individual call from `calling` to `called` behind Brew under a fresh random
    /// Brew session identifier (see `brew_setup_from`).
    pub fn fsm_on_u_setup_p2p_over_brew(
        &mut self,
        queue: &mut Vec<CcAction>,
        handle: u32,
        link_id: u32,
        endpoint_id: u32,
        calling: TetraAddress,
        called: TetraAddress,
        pdu: USetup,
    )
        requires
            old(self).wf(),
        ensures
            final(self).wf(),
            exists|brew_uuid: u128|
                (brew_uuid >> 76u128) & 0xFu128 == 4 && (brew_uuid >> 62u128) & 0x3u128 == 2 && #[trigger] old(
                    self,
                ).brew_setup_from(
                    *final(self),
                    old(queue)@,
                    final(queue)@,
                    handle,
                    link_id,
                    endpoint_id,
                    calling,
                    called,
                    pdu,
                    brew_uuid,
                ),
    {
        let brew_uuid = new_session_uuid();
        self.fsm_on_u_setup_p2p_over_brew_session(queue, handle, link_id, endpoint_id, calling, called, pdu, brew_uuid);
    }
}

} // verus!
