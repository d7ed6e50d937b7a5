//! Call-control handling of the uplink CC PDUs of individual and group calls: U-ALERT,
//! U-CONNECT, U-RELEASE and U-DISCONNECT, each taken as the plain fields the PDU carries.
use vstd::prelude::*;
use crate::tdma::{Direction, SsiType, TdmaTime, TetraAddress};
use crate::cmce::components::circuit_mgr::CmceCircuit;
use crate::cmce::cc_bs::call::{
    CallOrigin, CallTimeout, CallTimeoutSetupPhase, IndividualCall, IndividualCallState, network_params_or_default,
    spec_network_params_or_default,
};
use crate::cmce::cc_bs::dtmf::{DtmfKind, decode_dtmf, dtmf_char, dtmf_digits, pack_type3_bits_to_bytes, spec_decode_dtmf};
use crate::cmce::type3::Type3FieldGeneric;
use crate::cmce::cc_bs::subentity::{
    CcAction, CcBsSubentity, DisconnectCause, IndividualTransitionError, PduRoute, TransmissionGrant,
    spec_config_call_timeout,
};

verus! {

/// The party of individual call `c` that `sender_ssi` is talking to, if it is one of its parties.
pub open spec fn other_party(c: IndividualCall, sender_ssi: u32) -> Option<TetraAddress> {
    if sender_ssi == c.calling_addr.ssi {
        Some(c.called_addr)
    } else if sender_ssi == c.called_addr.ssi {
        Some(c.calling_addr)
    } else {
        None
    }
}

/// How a PDU reaches party `t` of individual call `c`: stolen from its traffic channel once
/// the call is active, else over its link context, else on the MCCH.
pub open spec fn party_route(c: IndividualCall, t: TetraAddress) -> PduRoute {
    let is_calling = t.ssi == c.calling_addr.ssi;
    if c.state == IndividualCallState::Active {
        PduRoute::Stolen {
            ts: if is_calling { c.calling_ts } else { c.called_ts },
            usage: if is_calling { c.calling_usage } else { c.called_usage },
        }
    } else if is_calling {
        PduRoute::Link { handle: c.calling_handle, link_id: c.calling_link_id, endpoint_id: c.calling_endpoint_id }
    } else if c.called_handle is Some && c.called_link_id is Some && c.called_endpoint_id is Some {
        PduRoute::Link {
            handle: c.called_handle.unwrap(),
            link_id: c.called_link_id.unwrap(),
            endpoint_id: c.called_endpoint_id.unwrap(),
        }
    } else {
        PduRoute::Mcch
    }
}

/// D-DISCONNECT owed to the other party when `sender_ssi` leaves individual call `c`: only for a
/// call without a Brew leg that is active or that the called party leaves.
pub open spec fn disconnect_notice(call_id: u16, c: IndividualCall, sender_ssi: u32, cause: DisconnectCause) -> Seq<CcAction> {
    if !c.called_over_brew && !c.calling_over_brew && (c.state == IndividualCallState::Active || sender_ssi
        == c.called_addr.ssi) {
        match other_party(c, sender_ssi) {
            Some(t) => seq![CcAction::DDisconnect { call_id, to: t, cause, route: party_route(c, t) }],
            None => Seq::empty(),
        }
    } else {
        Seq::empty()
    }
}

/// Individual call `c` with the called party's link context bound, unless one is bound already.
pub open spec fn bound_called(c: IndividualCall, handle: u32, link_id: u32, endpoint_id: u32) -> IndividualCall {
    if c.called_handle is None {
        IndividualCall { called_handle: Some(handle), called_link_id: Some(link_id), called_endpoint_id: Some(endpoint_id), ..c }
    } else {
        c
    }
}

/// The traffic circuit of one leg (carrier `carrier_num`, timeslot `ts`, usage `usage`) of
/// individual call `c`, with the basic service of its D-SETUP.
pub open spec fn leg_circuit(c: IndividualCall, call_id: u16, carrier_num: u16, ts: u8, usage: u8, now: TdmaTime) -> CmceCircuit {
    CmceCircuit {
        ts_created: now,
        direction: Direction::Both,
        ts,
        carrier_num,
        call_id,
        usage,
        circuit_mode: c.service.circuit_mode,
        comm_type: c.service.comm_type,
        simplex_duplex: c.simplex_duplex,
        speech_service: c.service.speech_service,
        etee_encrypted: c.service.encryption,
    }
}

/// What connecting local individual call `c` sends: its leg circuits opened (each naming the
/// other leg's timeslot when there are two), D-CONNECT to the caller and D-CONNECT ACKNOWLEDGE
/// to the called party over `handle`/`link_id`/`endpoint_id`, each stolen and then on the MCCH.
/// A duplex caller is granted transmission; a simplex caller hears the called party first.
pub open spec fn connect_actions(
    call_id: u16,
    c: IndividualCall,
    handle: u32,
    link_id: u32,
    endpoint_id: u32,
    timeout: CallTimeout,
    now: TdmaTime,
) -> Seq<CcAction> {
    let two = c.calling_ts != c.called_ts;
    let grant = if c.simplex_duplex { TransmissionGrant::Granted } else { TransmissionGrant::GrantedToOtherUser };
    let connect = |stealing: bool|
        CcAction::DConnectIndividual {
            call_id,
            to: c.calling_addr,
            handle: c.calling_handle,
            link_id: c.calling_link_id,
            endpoint_id: c.calling_endpoint_id,
            call_timeout: timeout,
            hook_method: c.hook_method,
            simplex_duplex: c.simplex_duplex,
            grant,
            usage: c.calling_usage,
            ts: c.calling_ts,
            stealing,
        };
    let ack = |stealing: bool|
        CcAction::DConnectAck {
            call_id,
            to: c.called_addr,
            handle,
            link_id,
            endpoint_id,
            call_timeout: timeout,
            usage: c.called_usage,
            ts: c.called_ts,
            stealing,
        };
    seq![
        CcAction::IndividualCircuitOpen {
            circuit: leg_circuit(c, call_id, c.calling_carrier_num, c.calling_ts, c.calling_usage, now),
            peer_ts: if two { Some(c.called_ts) } else { None },
        },
    ] + (if two {
        seq![
            CcAction::IndividualCircuitOpen {
                circuit: leg_circuit(c, call_id, c.called_carrier_num, c.called_ts, c.called_usage, now),
                peer_ts: Some(c.calling_ts),
            },
        ]
    } else {
        Seq::empty()
    }) + seq![connect(true), connect(false), ack(true), ack(false)]
}

impl CcBsSubentity {
    fn push_disconnect_notice(queue: &mut Vec<CcAction>, call_id: u16, c: &IndividualCall, sender_ssi: u32, cause: DisconnectCause)
        ensures
            final(queue)@ == old(queue)@ + disconnect_notice(call_id, *c, sender_ssi, cause),
    {
        if c.called_over_brew || c.calling_over_brew {
            assert(queue@ =~= old(queue)@ + disconnect_notice(call_id, *c, sender_ssi, cause));
            return;
        }
        if !(c.is_active() || sender_ssi == c.called_addr.ssi) {
            assert(queue@ =~= old(queue)@ + disconnect_notice(call_id, *c, sender_ssi, cause));
            return;
        }
        let target = if sender_ssi == c.calling_addr.ssi {
            c.called_addr
        } else if sender_ssi == c.called_addr.ssi {
            c.calling_addr
        } else {
            assert(queue@ =~= old(queue)@ + disconnect_notice(call_id, *c, sender_ssi, cause));
            return;
        };
        let is_calling = target.ssi == c.calling_addr.ssi;
        let route = if c.is_active() {
            PduRoute::Stolen {
                ts: if is_calling { c.calling_ts } else { c.called_ts },
                usage: if is_calling { c.calling_usage } else { c.called_usage },
            }
        } else if is_calling {
            PduRoute::Link { handle: c.calling_handle, link_id: c.calling_link_id, endpoint_id: c.calling_endpoint_id }
        } else {
            match (c.called_handle, c.called_link_id, c.called_endpoint_id) {
                (Some(handle), Some(link_id), Some(endpoint_id)) => PduRoute::Link { handle, link_id, endpoint_id },
                _ => PduRoute::Mcch,
            }
        };
        queue.push(CcAction::DDisconnect { call_id, to: target, cause, route });
        assert(queue@ =~= old(queue)@ + disconnect_notice(call_id, *c, sender_ssi, cause));
    }

    /// U-ALERT from the called party of individual call `call_id`: its link context is bound
    /// and the call alerts with the set-up timer at 60 s. Nothing happens for an unknown call.
    pub fn fsm_on_u_alert(&mut self, queue: &mut Vec<CcAction>, handle: u32, link_id: u32, endpoint_id: u32, call_id: u16)
        requires
            old(self).wf(),
        ensures
            final(self).wf(),
            final(self).subscribers() == old(self).subscribers(),
            final(self).listeners() == old(self).listeners(),
            final(self).calls() == old(self).calls(),
            final(self).setups() == old(self).setups(),
            final(self).circuit_mgr() == old(self).circuit_mgr(),
            final(self).routing() == old(self).routing(),
            final(self).spec_dltime() == old(self).spec_dltime(),
            !old(self).individual().contains_key(call_id) ==> final(self).individual() == old(self).individual()
                && final(queue)@ == old(queue)@,
            old(self).individual().contains_key(call_id) ==> exists|r: Result<(), IndividualTransitionError>|
                old(self).alert_handled(
                    *final(self),
                    old(queue)@,
                    final(queue)@,
                    call_id,
                    Some((handle, link_id, endpoint_id)),
                    CallTimeoutSetupPhase::T60s,
                    r,
                ),
    {
        if !self.individual_calls.contains_key(&call_id) {
            return;
        }
        let r = self.fsm_individual_on_alert(queue, call_id, Some((handle, link_id, endpoint_id)), CallTimeoutSetupPhase::T60s);
    }

    /// U-CONNECT from the called party of individual call `call_id` over link context
    /// `handle`/`link_id`/`endpoint_id`, with the PDU's simplex/duplex and hook method
    /// selections. A connected or unknown call ignores it; a duplex call the called party
    /// answers in simplex is released (requested service not available). Otherwise the called
    /// party's link context is bound; a Brew-originated call is forwarded to Brew as
    /// CONNECT_REQUEST (once), with Brew's own set-up fields of the call and the U-CONNECT's
    /// selections; a local call with its cached D-SETUP gets its circuits opened,
    /// D-CONNECT and D-CONNECT ACKNOWLEDGE, and becomes active.
    pub fn fsm_on_u_connect(
        &mut self,
        queue: &mut Vec<CcAction>,
        handle: u32,
        link_id: u32,
        endpoint_id: u32,
        call_id: u16,
        simplex_duplex: bool,
        hook_method: bool,
    )
        requires
            old(self).wf(),
        ensures
            final(self).wf(),
            final(self).subscribers() == old(self).subscribers(),
            final(self).listeners() == old(self).listeners(),
            final(self).calls() == old(self).calls(),
            final(self).routing() == old(self).routing(),
            final(self).spec_call_timeout_secs() == old(self).spec_call_timeout_secs(),
            final(self).spec_telemetry() == old(self).spec_telemetry(),
            final(self).spec_dltime() == old(self).spec_dltime(),
            !old(self).individual().contains_key(call_id) || old(self).individual()[call_id].state
                == IndividualCallState::Active ==> *final(self) == *old(self) && final(queue)@ == old(queue)@,
            old(self).individual().contains_key(call_id) ==> {
                let c = old(self).individual()[call_id];
                let b = bound_called(c, handle, link_id, endpoint_id);
                &&& c.state != IndividualCallState::Active && c.simplex_duplex && !simplex_duplex
                    ==> old(self).individual_released(
                    *final(self),
                    old(queue)@,
                    final(queue)@,
                    call_id,
                    DisconnectCause::RequestedServiceNotAvailable,
                )
                &&& c.state != IndividualCallState::Active && !(c.simplex_duplex && !simplex_duplex) ==> {
                    &&& final(self).setups() == old(self).setups()
                    &&& final(self).circuit_mgr() == old(self).circuit_mgr()
                    &&& c.calling_over_brew && (c.brew_uuid is None || c.connect_request_sent)
                        ==> final(self).individual() == old(self).individual().insert(call_id, b)
                        && final(queue)@ == old(queue)@
                    &&& c.calling_over_brew && c.brew_uuid is Some && !c.connect_request_sent
                        ==> final(self).individual() == old(self).individual().insert(
                        call_id,
                        IndividualCall {
                            connect_request_sent: true,
                            state: IndividualCallState::IncomingSetupWaitNetworkAck,
                            ..b
                        },
                    ) && final(queue)@ == old(queue)@.push(
                        CcAction::NetworkCircuitConnectRequest {
                            brew_uuid: c.brew_uuid.unwrap(),
                            source_issi: c.calling_addr.ssi,
                            destination: c.called_addr.ssi,
                            duplex: simplex_duplex,
                            hook_method,
                            params: spec_network_params_or_default(c.network_params),
                        },
                    )
                    &&& !c.calling_over_brew && !old(self).setups().contains_key(call_id)
                        ==> final(self).individual() == old(self).individual().insert(call_id, b)
                        && final(queue)@ == old(queue)@
                    &&& !c.calling_over_brew && old(self).setups().contains_key(call_id)
                        ==> final(self).individual() == old(self).individual().insert(
                        call_id,
                        IndividualCall {
                            state: IndividualCallState::Active,
                            setup_timer_started: None,
                            setup_timeout: None,
                            active_timer_started: Some(old(self).spec_dltime()),
                            connect_request_sent: false,
                            ..b
                        },
                    ) && final(queue)@ == old(queue)@ + connect_actions(
                        call_id,
                        c,
                        handle,
                        link_id,
                        endpoint_id,
                        spec_config_call_timeout(old(self).spec_call_timeout_secs()),
                        old(self).spec_dltime(),
                    )
                }
            },
    {
        let c = match self.individual_calls.get(&call_id) {
            Some(c) => *c,
            None => return,
        };
        if c.is_active() {
            return;
        }
        if c.simplex_duplex && !simplex_duplex {
            self.release_individual_call(queue, call_id, DisconnectCause::RequestedServiceNotAvailable);
            return;
        }
        match self.fsm_individual_bind_called_context(call_id, handle, link_id, endpoint_id) {
            Ok(()) => {},
            Err(_) => return,
        }
        if c.calling_over_brew {
            let brew_uuid = match c.brew_uuid {
                Some(u) => u,
                None => return,
            };
            match self.fsm_individual_mark_connect_request_sent(call_id) {
                Ok(()) => {},
                Err(_) => return,
            }
            queue.push(
                CcAction::NetworkCircuitConnectRequest {
                    brew_uuid,
                    source_issi: c.calling_addr.ssi,
                    destination: c.called_addr.ssi,
                    duplex: simplex_duplex,
                    hook_method,
                    params: network_params_or_default(c.network_params),
                },
            );
            return;
        }
        if !self.cached_setups.contains_key(&call_id) {
            return;
        }
        let two = c.calling_ts != c.called_ts;
        let now = self.dltime;
        let calling_circuit = CmceCircuit {
            ts_created: now,
            direction: Direction::Both,
            ts: c.calling_ts,
            carrier_num: c.calling_carrier_num,
            call_id,
            usage: c.calling_usage,
            circuit_mode: c.service.circuit_mode,
            comm_type: c.service.comm_type,
            simplex_duplex: c.simplex_duplex,
            speech_service: c.service.speech_service,
            etee_encrypted: c.service.encryption,
        };
        queue.push(CcAction::IndividualCircuitOpen { circuit: calling_circuit, peer_ts: if two { Some(c.called_ts) } else { None } });
        if two {
            let called_circuit = CmceCircuit {
                carrier_num: c.called_carrier_num,
                ts: c.called_ts,
                usage: c.called_usage,
                ..calling_circuit
            };
            queue.push(CcAction::IndividualCircuitOpen { circuit: called_circuit, peer_ts: Some(c.calling_ts) });
        }
        let timeout = self.config_call_timeout();
        let grant = if c.simplex_duplex { TransmissionGrant::Granted } else { TransmissionGrant::GrantedToOtherUser };
        queue.push(
            CcAction::DConnectIndividual {
                call_id,
                to: c.calling_addr,
                handle: c.calling_handle,
                link_id: c.calling_link_id,
                endpoint_id: c.calling_endpoint_id,
                call_timeout: timeout,
                hook_method: c.hook_method,
                simplex_duplex: c.simplex_duplex,
                grant,
                usage: c.calling_usage,
                ts: c.calling_ts,
                stealing: true,
            },
        );
        queue.push(
            CcAction::DConnectIndividual {
                call_id,
                to: c.calling_addr,
                handle: c.calling_handle,
                link_id: c.calling_link_id,
                endpoint_id: c.calling_endpoint_id,
                call_timeout: timeout,
                hook_method: c.hook_method,
                simplex_duplex: c.simplex_duplex,
                grant,
                usage: c.calling_usage,
                ts: c.calling_ts,
                stealing: false,
            },
        );
        queue.push(
            CcAction::DConnectAck {
                call_id,
                to: c.called_addr,
                handle,
                link_id,
                endpoint_id,
                call_timeout: timeout,
                usage: c.called_usage,
                ts: c.called_ts,
                stealing: true,
            },
        );
        queue.push(
            CcAction::DConnectAck {
                call_id,
                to: c.called_addr,
                handle,
                link_id,
                endpoint_id,
                call_timeout: timeout,
                usage: c.called_usage,
                ts: c.called_ts,
                stealing: false,
            },
        );
        assert(queue@ =~= old(queue)@ + connect_actions(call_id, c, handle, link_id, endpoint_id, timeout, now));
        let r = self.fsm_individual_transition_to_active(call_id);
    }

    /// U-RELEASE from `sender` for call `call_id`: an individual call is released (after a
    /// D-DISCONNECT to the other party where one is owed); any other call id goes to the group
    /// release.
    pub fn fsm_on_u_release(&mut self, queue: &mut Vec<CcAction>, sender: TetraAddress, call_id: u16, cause: DisconnectCause)
        requires
            old(self).wf(),
        ensures
            final(self).wf(),
            final(self).subscribers() == old(self).subscribers(),
            final(self).listeners() == old(self).listeners(),
            final(self).routing() == old(self).routing(),
            final(self).spec_call_timeout_secs() == old(self).spec_call_timeout_secs(),
            final(self).spec_telemetry() == old(self).spec_telemetry(),
            final(self).spec_dltime() == old(self).spec_dltime(),
            old(self).individual().contains_key(call_id) ==> final(self).calls() == old(self).calls()
                && old(self).individual_released(
                *final(self),
                old(queue)@ + disconnect_notice(call_id, old(self).individual()[call_id], sender.ssi, cause),
                final(queue)@,
                call_id,
                cause,
            ),
            !old(self).individual().contains_key(call_id) ==> final(self).individual() == old(self).individual()
                && old(self).group_released(*final(self), old(queue)@, final(queue)@, call_id, cause),
    {
        match self.individual_calls.get(&call_id) {
            Some(c) => {
                let c = *c;
                Self::push_disconnect_notice(queue, call_id, &c, sender.ssi, cause);
                self.release_individual_call(queue, call_id, cause);
            },
            None => {
                self.release_group_call(queue, call_id, cause);
            },
        }
    }

    /// U-DISCONNECT from `sender` (over link context `handle`/`link_id`/`endpoint_id`) for call
    /// `call_id`. An individual call is released, after a D-DISCONNECT to the other party where
    /// one is owed. A group call is released when its local caller leaves; anyone else is
    /// answered with D-RELEASE (requested service not available). An unknown call is ignored.
    pub fn fsm_on_u_disconnect(
        &mut self,
        queue: &mut Vec<CcAction>,
        sender: TetraAddress,
        handle: u32,
        link_id: u32,
        endpoint_id: u32,
        call_id: u16,
        cause: DisconnectCause,
    )
        requires
            old(self).wf(),
        ensures
            final(self).wf(),
            final(self).subscribers() == old(self).subscribers(),
            final(self).listeners() == old(self).listeners(),
            final(self).routing() == old(self).routing(),
            final(self).spec_call_timeout_secs() == old(self).spec_call_timeout_secs(),
            final(self).spec_telemetry() == old(self).spec_telemetry(),
            final(self).spec_dltime() == old(self).spec_dltime(),
            old(self).individual().contains_key(call_id) ==> final(self).calls() == old(self).calls()
                && old(self).individual_released(
                *final(self),
                old(queue)@ + disconnect_notice(call_id, old(self).individual()[call_id], sender.ssi, cause),
                final(queue)@,
                call_id,
                cause,
            ),
            !old(self).individual().contains_key(call_id) && !old(self).calls().contains_key(call_id) ==> *final(self)
                == *old(self) && final(queue)@ == old(queue)@,
            !old(self).individual().contains_key(call_id) && old(self).calls().contains_key(call_id) ==> {
                let c = old(self).calls()[call_id];
                let owner = c.origin matches CallOrigin::Local { caller_addr } && caller_addr.ssi == sender.ssi;
                &&& owner ==> final(self).individual() == old(self).individual() && old(self).group_released(
                    *final(self),
                    old(queue)@,
                    final(queue)@,
                    call_id,
                    DisconnectCause::UserRequestedDisconnection,
                )
                &&& !owner ==> *final(self) == *old(self) && final(queue)@ == old(queue)@.push(
                    CcAction::DReleaseLink {
                        call_id,
                        to: TetraAddress { ssi: sender.ssi, ssi_type: SsiType::Issi },
                        cause: DisconnectCause::RequestedServiceNotAvailable,
                        handle,
                        link_id,
                        endpoint_id,
                    },
                )
            },
    {
        match self.individual_calls.get(&call_id) {
            Some(c) => {
                let c = *c;
                Self::push_disconnect_notice(queue, call_id, &c, sender.ssi, cause);
                self.release_individual_call(queue, call_id, cause);
                return;
            },
            None => {},
        }
        let call = match self.active_calls.get(&call_id) {
            Some(c) => *c,
            None => return,
        };
        let owner = match call.origin {
            CallOrigin::Local { caller_addr } => caller_addr.ssi == sender.ssi,
            CallOrigin::Network { .. } => false,
        };
        if owner {
            self.release_group_call(queue, call_id, DisconnectCause::UserRequestedDisconnection);
            return;
        }
        queue.push(
            CcAction::DReleaseLink {
                call_id,
                to: TetraAddress { ssi: sender.ssi, ssi_type: SsiType::Issi },
                cause: DisconnectCause::RequestedServiceNotAvailable,
                handle,
                link_id,
                endpoint_id,
            },
        );
    }
}


/// The DTMF digits of element `f` that call control forwards: those of a tone start or of an
/// edition-1 digit string; none for any other DTMF type.
pub open spec fn forwarded_digits(f: Type3FieldGeneric) -> Seq<char> {
    let d = spec_decode_dtmf(f.len, f.data);
    if d.0 is ToneStart || d.0 is LegacyDigits {
        d.1
    } else {
        Seq::empty()
    }
}

/// What U-INFO of individual call `c` carrying DTMF element `dtmf` sends on: for a call with a
/// Brew leg and a Brew session, one message per forwarded digit, in order; nothing otherwise.
pub open spec fn info_forwarded(c: IndividualCall, dtmf: Option<Type3FieldGeneric>) -> Seq<CcAction> {
    match (dtmf, c.brew_uuid) {
        (Some(f), Some(uuid)) => if c.called_over_brew || c.calling_over_brew {
            forwarded_digits(f).map_values(|ch: char| CcAction::NetworkCircuitDtmf { brew_uuid: uuid, digit: ch as u8 })
        } else {
            Seq::empty()
        },
        _ => Seq::empty(),
    }
}

proof fn lemma_dtmf_digits_ascii(data: u64, start: nat, count: nat)
    ensures
        dtmf_digits(data, start, count).len() == count,
        forall|i: int| 0 <= i < count ==> '\0' <= #[trigger] dtmf_digits(data, start, count)[i] <= '\u{7f}',
    decreases count,
{
    if count > 0 {
        lemma_dtmf_digits_ascii(data, start, (count - 1) as nat);
    }
}

/// What a call modification `modify` in U-INFO from `sender` on active individual call `c`
/// sends: none without one, and none for a call with a Brew leg (not supported there); else
/// D-INFO with the modification to the other party, on its traffic channel; none when the
/// sender is neither party.
pub open spec fn info_modify_actions(call_id: u16, c: IndividualCall, sender: TetraAddress, modify: Option<u64>) -> Seq<CcAction> {
    match modify {
        None => Seq::empty(),
        Some(m) => if c.called_over_brew || c.calling_over_brew {
            Seq::empty()
        } else if sender.ssi == c.calling_addr.ssi {
            seq![CcAction::DInfoModify { call_id, to: c.called_addr, modify: m, ts: c.called_ts, usage: c.called_usage }]
        } else if sender.ssi == c.called_addr.ssi {
            seq![CcAction::DInfoModify { call_id, to: c.calling_addr, modify: m, ts: c.calling_ts, usage: c.calling_usage }]
        } else {
            Seq::empty()
        },
    }
}

impl CcBsSubentity {
    /// U-INFO from `sender` (over link context `handle`/`link_id`/`endpoint_id`) for call
    /// `call_id`, carrying call modification `modify` and DTMF element `dtmf`. A call that is
    /// not an individual call is answered with D-RELEASE (invalid call identifier) over the
    /// link; U-INFO for an individual call not yet active is ignored. On an active call the
    /// call's activity timer restarts, a modification goes to the other party (see
    /// `info_modify_actions`), then DTMF of a call with a Brew leg is forwarded to Brew digit by
    /// digit (see `info_forwarded`).
    pub fn fsm_on_u_info(
        &mut self,
        queue: &mut Vec<CcAction>,
        sender: TetraAddress,
        handle: u32,
        link_id: u32,
        endpoint_id: u32,
        call_id: u16,
        modify: Option<u64>,
        dtmf: Option<Type3FieldGeneric>,
    )
        requires
            old(self).wf(),
        ensures
            final(self).wf(),
            !old(self).individual().contains_key(call_id) ==> *final(self) == *old(self) && final(queue)@ == old(
                queue,
            )@.push(
                CcAction::DReleaseLink {
                    call_id,
                    to: sender,
                    cause: DisconnectCause::InvalidCallIdentifier,
                    handle,
                    link_id,
                    endpoint_id,
                },
            ),
            old(self).individual().contains_key(call_id) && old(self).individual()[call_id].state != IndividualCallState::Active
                ==> *final(self) == *old(self) && final(queue)@ == old(queue)@,
            old(self).individual().contains_key(call_id) && old(self).individual()[call_id].state == IndividualCallState::Active
                ==> {
                let c = old(self).individual()[call_id];
                &&& old(self).same_context(*final(self))
                &&& final(self).setups() == old(self).setups()
                &&& final(self).circuit_mgr() == old(self).circuit_mgr()
                &&& final(self).individual() == old(self).individual().insert(
                    call_id,
                    IndividualCall { active_timer_started: Some(old(self).spec_dltime()), ..c },
                )
                &&& final(queue)@ == old(queue)@ + info_modify_actions(call_id, c, sender, modify) + info_forwarded(c, dtmf)
            },
    {
        let call = match self.individual_calls.get(&call_id) {
            Some(c) => *c,
            None => {
                queue.push(
                    CcAction::DReleaseLink {
                        call_id,
                        to: sender,
                        cause: DisconnectCause::InvalidCallIdentifier,
                        handle,
                        link_id,
                        endpoint_id,
                    },
                );
                return;
            },
        };
        if !call.is_active() {
            return;
        }
        let mut cur = call;
        cur.active_timer_started = Some(self.dltime);
        self.individual_calls.insert(call_id, cur);
        let ghost qa = queue@;
        match modify {
            Some(m) => {
                if !call.called_over_brew && !call.calling_over_brew {
                    if sender.ssi == call.calling_addr.ssi {
                        queue.push(
                            CcAction::DInfoModify {
                                call_id,
                                to: call.called_addr,
                                modify: m,
                                ts: call.called_ts,
                                usage: call.called_usage,
                            },
                        );
                    } else if sender.ssi == call.called_addr.ssi {
                        queue.push(
                            CcAction::DInfoModify {
                                call_id,
                                to: call.calling_addr,
                                modify: m,
                                ts: call.calling_ts,
                                usage: call.calling_usage,
                            },
                        );
                    }
                }
            },
            None => {},
        }
        assert(queue@ =~= qa + info_modify_actions(call_id, call, sender, modify));
        let ghost q0 = queue@;
        if !call.called_over_brew && !call.calling_over_brew {
            return;
        }
        let brew_uuid = match call.brew_uuid {
            Some(u) => u,
            None => return,
        };
        let field = match dtmf {
            Some(f) => f,
            None => return,
        };
        let decoded = decode_dtmf(&field);
        match decoded.kind {
            DtmfKind::ToneStart | DtmfKind::LegacyDigits => {},
            _ => return,
        }
        let digits = decoded.digits.as_str();
        let n = digits.unicode_len();
        if n == 0 {
            return;
        }
        let (length_bits, data) = pack_type3_bits_to_bytes(&field);
        proof {
            let l = if field.len < 64 { field.len as nat } else { 64nat };
            assert(l > 0);
        }
        if length_bits == 0 || data.len() == 0 {
            return;
        }
        let ghost ds = digits@;
        proof {
            let l = if field.len < 64 { field.len as nat } else { 64nat };
            if l % 4 == 0 {
                lemma_dtmf_digits_ascii(field.data, 0, l / 4);
            } else {
                lemma_dtmf_digits_ascii(field.data, 3, ((l - 3) / 4) as nat);
            }
            assert(vstd::string::is_ascii(digits));
        }
        let mut i: usize = 0;
        while i < n
            invariant
                i <= n,
                n == ds.len(),
                ds == digits@,
                vstd::string::is_ascii(digits),
                queue@ == q0 + ds.take(i as int).map_values(
                    |ch: char| CcAction::NetworkCircuitDtmf { brew_uuid, digit: ch as u8 },
                ),
            decreases n - i,
        {
            let digit = digits.get_ascii(i);
            queue.push(CcAction::NetworkCircuitDtmf { brew_uuid, digit });
            proof {
                assert(ds.take(i + 1) == ds.take(i as int).push(ds[i as int]));
                assert(queue@ =~= q0 + ds.take(i + 1).map_values(
                    |ch: char| CcAction::NetworkCircuitDtmf { brew_uuid, digit: ch as u8 },
                ));
            }
            i = i + 1;
        }
        assert(ds.take(n as int) == ds);
    }
}

} // verus!
