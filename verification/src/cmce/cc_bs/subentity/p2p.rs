//! Set-up of individual (point-to-point) calls between two MSs of this cell.
use vstd::prelude::*;
use crate::tdma::{CarrierSlot, Direction, TdmaTime, TetraAddress};
use crate::cmce::components::circuit_mgr::{CircuitErr, CircuitMgr, CmceCircuit, made_circuit, slot_closed};
use crate::cmce::cc_bs::call::{CallTimeout, CallTimeoutSetupPhase, IndividualCall, IndividualCallState};
use crate::cmce::cc_bs::subentity::{
    CcAction, CcBsSubentity, ControlDest, DisconnectCause, TransmissionGrant, calls_involving, close_signal,
};
use crate::cmce::cc_bs::echo::ECHO_ISSI;
use crate::cmce::cc_bs::subentity::setup::USetup;

verus! {

/// Traffic timeslots a local individual call takes: one per leg for duplex, one shared for
/// simplex.
pub open spec fn p2p_slots(duplex: bool) -> nat {
    if duplex { 2 } else { 1 }
}


broadcast use vstd::std_specs::hash::group_hash_axioms;

/// Call time-out of an individual call: none for a duplex call, five minutes for a simplex one.
pub open spec fn p2p_call_timeout(simplex_duplex: bool) -> CallTimeout {
    if simplex_duplex { CallTimeout::Infinite } else { CallTimeout::T5m }
}

/// The record of a new individual call from `calling` to `called` set up with `pdu`, its legs on
/// circuits `c1` (caller) and `c2` (called party), waiting `setup_timeout` from `now`.
pub open spec fn new_individual_call(
    calling: TetraAddress,
    called: TetraAddress,
    handle: u32,
    link_id: u32,
    endpoint_id: u32,
    c1: CmceCircuit,
    c2: CmceCircuit,
    pdu: USetup,
    now: TdmaTime,
    setup_timeout: CallTimeoutSetupPhase,
    call_timeout: CallTimeout,
    called_over_brew: bool,
    brew_uuid: Option<u128>,
) -> IndividualCall {
    IndividualCall {
        calling_addr: calling,
        called_addr: called,
        calling_handle: handle,
        calling_link_id: link_id,
        calling_endpoint_id: endpoint_id,
        called_handle: None,
        called_link_id: None,
        called_endpoint_id: None,
        calling_carrier_num: c1.carrier_num,
        calling_ts: c1.ts,
        called_carrier_num: c2.carrier_num,
        called_ts: c2.ts,
        calling_usage: c1.usage,
        called_usage: c2.usage,
        simplex_duplex: pdu.simplex_duplex,
        priority: pdu.call_priority,
        state: IndividualCallState::CallSetupPending,
        setup_timer_started: Some(now),
        setup_timeout: Some(setup_timeout),
        active_timer_started: None,
        call_timeout,
        called_over_brew,
        calling_over_brew: false,
        brew_uuid,
        connect_request_sent: false,
        floor_holder: None,
        hook_method: pdu.hook_method,
        service: pdu.service,
        network_params: None,
    }
}

/// `new` is `old` after opening two-way circuit `c`, with a fresh call identifier handed out
/// when `fresh_id`.
pub open spec fn both_opened(old: CircuitMgr, new: CircuitMgr, c: CmceCircuit, fresh_id: bool) -> bool {
    &&& new.dltime == old.dltime
    &&& new.tx_view() == old.tx_view()
    &&& new.ul_only@ == old.ul_only@
    &&& new.dl@ == old.dl@.push(c)
    &&& new.spec_next_usage() == CircuitMgr::usage_after(old.spec_next_usage())
    &&& new.spec_next_call_id() == if fresh_id {
        CircuitMgr::call_id_after(old.spec_next_call_id())
    } else {
        old.spec_next_call_id()
    }
}

/// The slot of circuit `c`.
pub open spec fn slot_of_circuit(c: CmceCircuit) -> CarrierSlot {
    CarrierSlot { carrier_num: c.carrier_num, ts: c.ts }
}

impl CcBsSubentity {
    /// Everything but the calls, set-ups and circuits is as in `self`.
    pub open spec fn same_context(self, new: Self) -> bool {
        &&& new.subscribers() == self.subscribers()
        &&& new.listeners() == self.listeners()
        &&& new.routing() == self.routing()
        &&& new.spec_dltime() == self.spec_dltime()
        &&& new.spec_call_timeout_secs() == self.spec_call_timeout_secs()
        &&& new.spec_telemetry() == self.spec_telemetry()
        &&& new.calls() == self.calls()
    }

    /// `new` and `q1` are `self` (with circuit manager `m`) and `q0` after refusing a U-SETUP
    /// from `target` with D-RELEASE (`cause`) over its link context, under the next call
    /// identifier of `m`.
    pub open spec fn refused_on(
        self,
        m: CircuitMgr,
        new: Self,
        q0: Seq<CcAction>,
        q1: Seq<CcAction>,
        handle: u32,
        link_id: u32,
        endpoint_id: u32,
        target: TetraAddress,
        cause: DisconnectCause,
    ) -> bool {
        &&& self.same_context(new)
        &&& new.setups() == self.setups()
        &&& new.individual() == self.individual()
        &&& new.circuit_mgr().dl@ == m.dl@
        &&& new.circuit_mgr().ul_only@ == m.ul_only@
        &&& new.circuit_mgr().tx_view() == m.tx_view()
        &&& new.circuit_mgr().dltime == m.dltime
        &&& new.circuit_mgr().spec_next_usage() == m.spec_next_usage()
        &&& new.circuit_mgr().spec_next_call_id() == CircuitMgr::call_id_after(m.spec_next_call_id())
        &&& q1 == q0.push(
            CcAction::DReleaseLink { call_id: m.spec_next_call_id(), to: target, cause, handle, link_id, endpoint_id },
        )
    }

    /// `new` and `q1` follow from `self` (with circuit manager `m` holding the new legs) and
    /// `q0` once local individual call `c1.call_id` from `calling` to `called` has its legs on
    /// `c1` and `c2`: with telemetry on, an individual-call-started event (simplex unless the
    /// caller asked for hook signalling); D-CALL-PROCEEDING to the caller and D-SETUP to the
    /// called MS; then the call is recorded, or its set-up aborted (no idle CC entity) when the
    /// identifier is taken.
    pub open spec fn local_call_made(
        self,
        m: CircuitMgr,
        new: Self,
        q0: Seq<CcAction>,
        q1: Seq<CcAction>,
        handle: u32,
        link_id: u32,
        endpoint_id: u32,
        calling: TetraAddress,
        called: TetraAddress,
        pdu: USetup,
        c1: CmceCircuit,
        c2: CmceCircuit,
    ) -> bool {
        let call_id = c1.call_id;
        let timeout = p2p_call_timeout(pdu.simplex_duplex);
        let started = if self.spec_telemetry() {
            seq![CcAction::IndividualCallStarted { call_id, calling_issi: calling.ssi, called_issi: called.ssi, simplex: !pdu.hook_method }]
        } else {
            Seq::<CcAction>::empty()
        };
        let q = q0 + started + seq![
            CcAction::DCallProceeding {
                call_id,
                to: calling,
                handle,
                link_id,
                endpoint_id,
                setup_timeout: CallTimeoutSetupPhase::T60s,
                hook_method: pdu.hook_method,
                simplex_duplex: pdu.simplex_duplex,
            },
            CcAction::DSetupIndividual {
                call_id,
                to: called,
                calling_issi: calling.ssi,
                call_timeout: timeout,
                hook_method: pdu.hook_method,
                simplex_duplex: pdu.simplex_duplex,
                service: pdu.service,
                priority: pdu.call_priority,
                grant: if pdu.simplex_duplex { TransmissionGrant::NotGranted } else { TransmissionGrant::GrantedToOtherUser },
            },
        ];
        if self.individual().contains_key(call_id) {
            exists|s: Self|
                {
                    &&& self.same_context(s)
                    &&& s.setups() == self.setups().insert(call_id, called)
                    &&& s.individual() == self.individual()
                    &&& s.circuit_mgr() == m
                    &&& s.setup_aborted(
                        new,
                        q,
                        q1,
                        call_id,
                        calling,
                        handle,
                        link_id,
                        endpoint_id,
                        slot_of_circuit(c1),
                        slot_of_circuit(c2),
                        DisconnectCause::NoIdleCcEntity,
                    )
                }
        } else {
            &&& self.same_context(new)
            &&& new.setups() == self.setups().insert(call_id, called)
            &&& new.individual() == self.individual().insert(
                call_id,
                new_individual_call(
                    calling,
                    called,
                    handle,
                    link_id,
                    endpoint_id,
                    c1,
                    c2,
                    pdu,
                    self.spec_dltime(),
                    CallTimeoutSetupPhase::T60s,
                    timeout,
                    false,
                    None,
                ),
            )
            &&& new.circuit_mgr() == m
            &&& q1 == q
        }
    }

    /// `new` and `q1` follow from `self` and `q0` when a local individual call from `calling` to
    /// `called` is set up with `pdu`: a circuit for the caller (and a second one for the called
    /// party of a duplex call) is allocated, else the set-up is refused for congestion.
    pub open spec fn p2p_local_setup_from(
        self,
        new: Self,
        q0: Seq<CcAction>,
        q1: Seq<CcAction>,
        handle: u32,
        link_id: u32,
        endpoint_id: u32,
        calling: TetraAddress,
        called: TetraAddress,
        pdu: USetup,
    ) -> bool {
        let m = self.circuit_mgr();
        match m.free_slot(Direction::Both) {
            None => self.refused_on(
                m,
                new,
                q0,
                q1,
                handle,
                link_id,
                endpoint_id,
                calling,
                DisconnectCause::CongestionInInfrastructure,
            ),
            Some(s1) => {
                let call_id = m.spec_next_call_id();
                let c1 = made_circuit(
                    m.dltime,
                    Direction::Both,
                    s1,
                    call_id,
                    m.spec_next_usage(),
                    pdu.service.comm_type,
                    pdu.simplex_duplex,
                );
                exists|m1: CircuitMgr|
                    {
                        &&& both_opened(m, m1, c1, true)
                        &&& !pdu.simplex_duplex ==> self.local_call_made(
                            m1,
                            new,
                            q0,
                            q1,
                            handle,
                            link_id,
                            endpoint_id,
                            calling,
                            called,
                            pdu,
                            c1,
                            c1,
                        )
                        &&& pdu.simplex_duplex ==> match m1.free_slot(Direction::Both) {
                            None => exists|m2: CircuitMgr, cr: Result<CmceCircuit, CircuitErr>|
                                slot_closed(m1, m2, Direction::Both, s1.carrier_num, s1.ts, cr) && self.refused_on(
                                    m2,
                                    new,
                                    q0,
                                    q1,
                                    handle,
                                    link_id,
                                    endpoint_id,
                                    calling,
                                    DisconnectCause::CongestionInInfrastructure,
                                ),
                            Some(s2) => {
                                let c2 = made_circuit(
                                    m1.dltime,
                                    Direction::Both,
                                    s2,
                                    call_id,
                                    m1.spec_next_usage(),
                                    pdu.service.comm_type,
                                    pdu.simplex_duplex,
                                );
                                exists|m3: CircuitMgr|
                                    both_opened(m1, m3, c2, false) && self.local_call_made(
                                        m3,
                                        new,
                                        q0,
                                        q1,
                                        handle,
                                        link_id,
                                        endpoint_id,
                                        calling,
                                        called,
                                        pdu,
                                        c1,
                                        c2,
                                    )
                            },
                        }
                    }
            },
        }
    }

    /// `new` and `q1` follow from `self` and `q0` when `calling` sets up a call to the local echo
    /// service `echo` with `pdu`: one two-way circuit serves both legs and the call is active at
    /// once (time-out five minutes, since nothing supervises a vanished caller). The circuit is
    /// opened, D-CALL-PROCEEDING and D-CONNECT go to the caller, and a simplex caller gets the
    /// floor, announced to UMAC (and, with telemetry on, to the dashboard first). With no free
    /// slot the set-up is refused for congestion; when the call identifier is taken the set-up
    /// is aborted (no idle CC entity).
    pub open spec fn echo_setup_from(
        self,
        new: Self,
        q0: Seq<CcAction>,
        q1: Seq<CcAction>,
        handle: u32,
        link_id: u32,
        endpoint_id: u32,
        calling: TetraAddress,
        echo: TetraAddress,
        pdu: USetup,
    ) -> bool {
        let m = self.circuit_mgr();
        match m.free_slot(Direction::Both) {
            None => self.refused_on(
                m,
                new,
                q0,
                q1,
                handle,
                link_id,
                endpoint_id,
                calling,
                DisconnectCause::CongestionInInfrastructure,
            ),
            Some(s1) => {
                let call_id = m.spec_next_call_id();
                let c = made_circuit(
                    m.dltime,
                    Direction::Both,
                    s1,
                    call_id,
                    m.spec_next_usage(),
                    pdu.service.comm_type,
                    pdu.simplex_duplex,
                );
                let now = self.spec_dltime();
                exists|m1: CircuitMgr|
                    {
                        &&& both_opened(m, m1, c, true)
                        &&& self.individual().contains_key(call_id) ==> exists|s: Self|
                            {
                                &&& self.same_context(s)
                                &&& s.setups() == self.setups()
                                &&& s.individual() == self.individual()
                                &&& s.circuit_mgr() == m1
                                &&& s.setup_aborted(
                                    new,
                                    q0,
                                    q1,
                                    call_id,
                                    calling,
                                    handle,
                                    link_id,
                                    endpoint_id,
                                    slot_of_circuit(c),
                                    slot_of_circuit(c),
                                    DisconnectCause::NoIdleCcEntity,
                                )
                            }
                        &&& !self.individual().contains_key(call_id) ==> {
                            &&& self.same_context(new)
                            &&& new.setups() == self.setups()
                            &&& new.circuit_mgr() == m1
                            &&& new.individual() == self.individual().insert(
                                call_id,
                                IndividualCall {
                                    state: IndividualCallState::Active,
                                    setup_timer_started: None,
                                    setup_timeout: None,
                                    active_timer_started: Some(now),
                                    floor_holder: if pdu.simplex_duplex { None } else { Some(calling.ssi) },
                                    ..new_individual_call(
                                        calling,
                                        echo,
                                        handle,
                                        link_id,
                                        endpoint_id,
                                        c,
                                        c,
                                        pdu,
                                        now,
                                        CallTimeoutSetupPhase::T10s,
                                        CallTimeout::T5m,
                                        false,
                                        None,
                                    )
                                },
                            )
                            &&& q1 == q0 + seq![
                                CcAction::CircuitOpen { circuit: c },
                                CcAction::DCallProceeding {
                                    call_id,
                                    to: calling,
                                    handle,
                                    link_id,
                                    endpoint_id,
                                    setup_timeout: CallTimeoutSetupPhase::T10s,
                                    hook_method: pdu.hook_method,
                                    simplex_duplex: pdu.simplex_duplex,
                                },
                                CcAction::DConnectCaller {
                                    call_id,
                                    to: calling,
                                    handle,
                                    link_id,
                                    endpoint_id,
                                    call_timeout: CallTimeout::T5m,
                                    hook_method: pdu.hook_method,
                                    simplex_duplex: pdu.simplex_duplex,
                                    usage: c.usage,
                                    carrier_num: c.carrier_num,
                                    ts: c.ts,
                                },
                            ] + if pdu.simplex_duplex {
                                Seq::<CcAction>::empty()
                            } else {
                                (if self.spec_telemetry() {
                                    seq![
                                        CcAction::CallSpeakerChanged {
                                            call_id,
                                            is_group: false,
                                            dest_addr: ECHO_ISSI,
                                            speaker_issi: calling.ssi,
                                            carrier_num: c.carrier_num,
                                            ts: c.ts,
                                        },
                                    ]
                                } else {
                                    Seq::<CcAction>::empty()
                                }) + seq![
                                    CcAction::FloorGranted {
                                        dest: ControlDest::Umac,
                                        call_id,
                                        source_issi: calling.ssi,
                                        dest_gssi: ECHO_ISSI,
                                        ts: c.ts,
                                    },
                                ]
                            }
                        }
                    }
            },
        }
    }

    /// `new` and `q1` follow from `self` and `q0` on a U-SETUP from `calling` to `called`, an MS
    /// of this cell: refused when the caller (concurrent set-up not supported) or the called
    /// party (busy) is in an individual call, else set up after pre-emption.
    pub open spec fn local_request_handled(
        self,
        new: Self,
        q0: Seq<CcAction>,
        q1: Seq<CcAction>,
        handle: u32,
        link_id: u32,
        endpoint_id: u32,
        calling: TetraAddress,
        called: TetraAddress,
        pdu: USetup,
    ) -> bool {
        &&& !calls_involving(self.individual(), calling.ssi).is_empty() ==> self.refused_on(
            self.circuit_mgr(),
            new,
            q0,
            q1,
            handle,
            link_id,
            endpoint_id,
            calling,
            DisconnectCause::ConcurrentSetUpNotSupported,
        )
        &&& calls_involving(self.individual(), calling.ssi).is_empty() && !calls_involving(self.individual(), called.ssi).is_empty()
            ==> self.refused_on(
            self.circuit_mgr(),
            new,
            q0,
            q1,
            handle,
            link_id,
            endpoint_id,
            calling,
            DisconnectCause::CalledPartyBusy,
        )
        &&& calls_involving(self.individual(), calling.ssi).is_empty() && calls_involving(self.individual(), called.ssi).is_empty()
            ==> exists|mid: Self, qm: Seq<CcAction>|
            #![trigger self.preempted_for(mid, q0, qm, p2p_slots(pdu.simplex_duplex), pdu.call_priority)]
            {
                &&& self.preempted_for(mid, q0, qm, p2p_slots(pdu.simplex_duplex), pdu.call_priority)
                &&& (self.circuit_mgr().spec_free_slot_count() >= p2p_slots(pdu.simplex_duplex)
                    || pdu.call_priority < 12 ==> mid == self && qm == q0)
                &&& mid.p2p_local_setup_from(new, qm, q1, handle, link_id, endpoint_id, calling, called, pdu)
            }
    }

    /// `new` and `q1` follow from `self` and `q0` on a U-SETUP from `calling` to the local echo
    /// service `echo`: refused when the caller is in an individual call (concurrent set-up not
    /// supported), else set up after pre-emption.
    pub open spec fn echo_request_handled(
        self,
        new: Self,
        q0: Seq<CcAction>,
        q1: Seq<CcAction>,
        handle: u32,
        link_id: u32,
        endpoint_id: u32,
        calling: TetraAddress,
        echo: TetraAddress,
        pdu: USetup,
    ) -> bool {
        &&& !calls_involving(self.individual(), calling.ssi).is_empty() ==> self.refused_on(
            self.circuit_mgr(),
            new,
            q0,
            q1,
            handle,
            link_id,
            endpoint_id,
            calling,
            DisconnectCause::ConcurrentSetUpNotSupported,
        )
        &&& calls_involving(self.individual(), calling.ssi).is_empty() ==> exists|mid: Self, qm: Seq<CcAction>|
            {
                &&& self.preempted_for(mid, q0, qm, 1, pdu.call_priority)
                &&& (self.circuit_mgr().spec_free_slot_count() >= 1 || pdu.call_priority < 12 ==> mid == self && qm == q0)
                &&& mid.echo_setup_from(new, qm, q1, handle, link_id, endpoint_id, calling, echo, pdu)
            }
    }

    /// `new` and `q1` are `self` and `q0` after aborting the set-up of individual call `call_id`:
    /// D-RELEASE with `cause` to `target` over its link context, the call and its cached D-SETUP
    /// forgotten, and the circuits on slots `a` and `b` (once when equal) closed and announced.
    pub open spec fn setup_aborted(
        self,
        new: Self,
        q0: Seq<CcAction>,
        q1: Seq<CcAction>,
        call_id: u16,
        target: TetraAddress,
        handle: u32,
        link_id: u32,
        endpoint_id: u32,
        a: CarrierSlot,
        b: CarrierSlot,
        cause: DisconnectCause,
    ) -> bool {
        &&& self.same_context(new)
        &&& new.setups() == self.setups().remove(call_id)
        &&& new.individual() == self.individual().remove(call_id)
        &&& exists|cr1: Result<CmceCircuit, CircuitErr>, cr2: Result<CmceCircuit, CircuitErr>, mid: CircuitMgr|
            {
                &&& slot_closed(self.circuit_mgr(), mid, Direction::Both, a.carrier_num, a.ts, cr1)
                &&& if b != a {
                    slot_closed(mid, new.circuit_mgr(), Direction::Both, b.carrier_num, b.ts, cr2)
                } else {
                    new.circuit_mgr() == mid
                }
                &&& q1 == q0.push(CcAction::DReleaseLink { call_id, to: target, cause, handle, link_id, endpoint_id })
                    + close_signal(cr1) + if b != a { close_signal(cr2) } else { Seq::<CcAction>::empty() }
            }
    }

    /// Abort the set-up of individual call `call_id` (see `setup_aborted`).
    pub(crate) fn abort_individual_setup(
        &mut self,
        queue: &mut Vec<CcAction>,
        call_id: u16,
        target: TetraAddress,
        handle: u32,
        link_id: u32,
        endpoint_id: u32,
        a: CarrierSlot,
        b: CarrierSlot,
        cause: DisconnectCause,
    )
        requires
            old(self).wf(),
        ensures
            final(self).wf(),
            old(self).setup_aborted(*final(self), old(queue)@, final(queue)@, call_id, target, handle, link_id, endpoint_id, a, b, cause),
    {
        let ghost q0 = queue@;
        queue.push(CcAction::DReleaseLink { call_id, to: target, cause, handle, link_id, endpoint_id });
        self.cached_setups.remove(&call_id);
        self.individual_calls.remove(&call_id);
        let ghost m0 = self.circuits;
        let ghost q1 = queue@;
        let cr1 = self.circuits.close_circuit_slot(Direction::Both, a.carrier_num, a.ts);
        match cr1 {
            Ok(c) => queue.push(CcAction::CircuitClose { dir: c.direction, ts: c.ts }),
            Err(_) => {},
        }
        let ghost mid = self.circuits;
        let ghost q2 = queue@;
        let mut cr2: Result<CmceCircuit, CircuitErr> = Err(CircuitErr::CircuitNotActive);
        if b.carrier_num != a.carrier_num || b.ts != a.ts {
            cr2 = self.circuits.close_circuit_slot(Direction::Both, b.carrier_num, b.ts);
            match cr2 {
                Ok(c) => queue.push(CcAction::CircuitClose { dir: c.direction, ts: c.ts }),
                Err(_) => {},
            }
        }
        proof {
            assert(q2 =~= q1 + close_signal(cr1));
            assert(slot_closed(old(self).circuit_mgr(), mid, Direction::Both, a.carrier_num, a.ts, cr1));
            if b != a {
                assert(queue@ =~= q2 + close_signal(cr2));
                assert(slot_closed(mid, self.circuit_mgr(), Direction::Both, b.carrier_num, b.ts, cr2));
            } else {
                assert(queue@ == q2);
                assert(self.circuit_mgr() == mid);
            }
            assert(queue@ =~= q0.push(CcAction::DReleaseLink { call_id, to: target, cause, handle, link_id, endpoint_id })
                + close_signal(cr1) + if b != a { close_signal(cr2) } else { Seq::<CcAction>::empty() });
            assert(self.cached_setups@ =~= old(self).setups().remove(call_id));
            assert(self.individual_calls@ =~= old(self).individual().remove(call_id));
        }
    }

    /// U-SETUP of an individual call from `calling` (over link context
    /// `handle`/`link_id`/`endpoint_id`) to `called`, an MS registered on this cell. A caller or
    /// called party already in an individual call is refused (concurrent set-up not supported,
    /// resp. called party busy); otherwise, after pre-emption for a pre-emptive priority (two
    /// timeslots for duplex, one for simplex), the call is set up (see `p2p_local_setup_from`).
    pub fn fsm_on_u_setup_p2p_local(
        &mut self,
        queue: &mut Vec<CcAction>,
        handle: u32,
        link_id: u32,
        endpoint_id: u32,
        calling: TetraAddress,
        called: TetraAddress,
        pdu: USetup,
    )
        requires
            old(self).wf(),
        ensures
            final(self).wf(),
            old(self).local_request_handled(*final(self), old(queue)@, final(queue)@, handle, link_id, endpoint_id, calling, called, pdu),
    {
        if self.involved_in_individual_call(calling.ssi) {
            self.reject_setup_request(queue, handle, link_id, endpoint_id, calling, DisconnectCause::ConcurrentSetUpNotSupported);
            return;
        }
        if self.involved_in_individual_call(called.ssi) {
            self.reject_setup_request(queue, handle, link_id, endpoint_id, calling, DisconnectCause::CalledPartyBusy);
            return;
        }
        let needed: usize = if pdu.simplex_duplex { 2 } else { 1 };
        assert(needed as nat == p2p_slots(pdu.simplex_duplex));
        let ok = self.ensure_timeslots_for_priority(queue, needed, pdu.call_priority);
        let ghost mid = *self;
        let ghost qm = queue@;
        assert(old(self).preempted_for(mid, old(queue)@, qm, p2p_slots(pdu.simplex_duplex), pdu.call_priority));
        let c1 = match self.circuits.allocate_circuit(Direction::Both, pdu.service.comm_type, pdu.simplex_duplex) {
            Ok(c) => c,
            Err(_) => {
                self.reject_setup_request(
                    queue,
                    handle,
                    link_id,
                    endpoint_id,
                    calling,
                    DisconnectCause::CongestionInInfrastructure,
                );
                return;
            },
        };
        let ghost m1 = self.circuits;
        let call_id = c1.call_id;
        let c2 = if pdu.simplex_duplex {
            match self.circuits.allocate_circuit_for_call(call_id, Direction::Both, pdu.service.comm_type, pdu.simplex_duplex) {
                Ok(c) => c,
                Err(_) => {
                    let cr = self.circuits.close_circuit_slot(Direction::Both, c1.carrier_num, c1.ts);
                    let ghost m2 = self.circuits;
                    let ghost s2 = *self;
                    let ghost q2 = queue@;
                    self.reject_setup_request(
                        queue,
                        handle,
                        link_id,
                        endpoint_id,
                        calling,
                        DisconnectCause::CongestionInInfrastructure,
                    );
                    proof {
                        assert(slot_closed(m1, m2, Direction::Both, c1.carrier_num, c1.ts, cr));
                        assert(m1.free_slot(Direction::Both) is None);
                        assert(both_opened(mid.circuit_mgr(), m1, c1, true));
                        assert(q2 == qm);
                        assert(mid.same_context(s2));
                        assert(mid.refused_on(
                            m2,
                            *self,
                            qm,
                            queue@,
                            handle,
                            link_id,
                            endpoint_id,
                            calling,
                            DisconnectCause::CongestionInInfrastructure,
                        ));
                    }
                    return;
                },
            }
        } else {
            c1
        };
        let ghost m3 = self.circuits;
        let timeout = if pdu.simplex_duplex { CallTimeout::Infinite } else { CallTimeout::T5m };
        if self.telemetry {
            queue.push(
                CcAction::IndividualCallStarted {
                    call_id,
                    calling_issi: calling.ssi,
                    called_issi: called.ssi,
                    simplex: !pdu.hook_method,
                },
            );
        }
        let ghost qt = queue@;
        queue.push(
            CcAction::DCallProceeding {
                call_id,
                to: calling,
                handle,
                link_id,
                endpoint_id,
                setup_timeout: CallTimeoutSetupPhase::T60s,
                hook_method: pdu.hook_method,
                simplex_duplex: pdu.simplex_duplex,
            },
        );
        queue.push(
            CcAction::DSetupIndividual {
                call_id,
                to: called,
                calling_issi: calling.ssi,
                call_timeout: timeout,
                hook_method: pdu.hook_method,
                simplex_duplex: pdu.simplex_duplex,
                service: pdu.service,
                priority: pdu.call_priority,
                grant: if pdu.simplex_duplex { TransmissionGrant::NotGranted } else { TransmissionGrant::GrantedToOtherUser },
            },
        );
        self.cached_setups.insert(call_id, called);
        let ghost s_mid = *self;
        let ghost q_mid = queue@;
        let call = IndividualCall {
            calling_addr: calling,
            called_addr: called,
            calling_handle: handle,
            calling_link_id: link_id,
            calling_endpoint_id: endpoint_id,
            called_handle: None,
            called_link_id: None,
            called_endpoint_id: None,
            calling_carrier_num: c1.carrier_num,
            calling_ts: c1.ts,
            called_carrier_num: c2.carrier_num,
            called_ts: c2.ts,
            calling_usage: c1.usage,
            called_usage: c2.usage,
            simplex_duplex: pdu.simplex_duplex,
            priority: pdu.call_priority,
            state: IndividualCallState::CallSetupPending,
            setup_timer_started: Some(self.dltime),
            setup_timeout: Some(CallTimeoutSetupPhase::T60s),
            active_timer_started: None,
            call_timeout: timeout,
            called_over_brew: false,
            calling_over_brew: false,
            brew_uuid: None,
            connect_request_sent: false,
            floor_holder: None,
            hook_method: pdu.hook_method,
            service: pdu.service,
            network_params: None,
        };
        match self.fsm_individual_create_setup_call(call_id, call) {
            Ok(()) => {},
            Err(_) => {
                self.abort_individual_setup(
                    queue,
                    call_id,
                    calling,
                    handle,
                    link_id,
                    endpoint_id,
                    CarrierSlot { carrier_num: c1.carrier_num, ts: c1.ts },
                    CarrierSlot { carrier_num: c2.carrier_num, ts: c2.ts },
                    DisconnectCause::NoIdleCcEntity,
                );
            },
        }
        proof {
            assert(s_mid.setups() =~= mid.setups().insert(call_id, called));
            assert(qt =~= qm + if mid.spec_telemetry() {
                seq![
                    CcAction::IndividualCallStarted {
                        call_id,
                        calling_issi: calling.ssi,
                        called_issi: called.ssi,
                        simplex: !pdu.hook_method,
                    },
                ]
            } else {
                Seq::<CcAction>::empty()
            });
            assert(q_mid =~= qt + seq![
                CcAction::DCallProceeding {
                    call_id,
                    to: calling,
                    handle,
                    link_id,
                    endpoint_id,
                    setup_timeout: CallTimeoutSetupPhase::T60s,
                    hook_method: pdu.hook_method,
                    simplex_duplex: pdu.simplex_duplex,
                },
                CcAction::DSetupIndividual {
                    call_id,
                    to: called,
                    calling_issi: calling.ssi,
                    call_timeout: timeout,
                    hook_method: pdu.hook_method,
                    simplex_duplex: pdu.simplex_duplex,
                    service: pdu.service,
                    priority: pdu.call_priority,
                    grant: if pdu.simplex_duplex { TransmissionGrant::NotGranted } else { TransmissionGrant::GrantedToOtherUser },
                },
            ]);
            assert(both_opened(mid.circuit_mgr(), m1, c1, true));
            if pdu.simplex_duplex {
                assert(both_opened(m1, m3, c2, false));
            }
        }
    }

    /// U-SETUP of a call from `calling` (over link context `handle`/`link_id`/`endpoint_id`) to the
    /// local echo service `echo`. A caller already in an individual call is refused (concurrent
    /// set-up not supported); otherwise, after pre-emption for a pre-emptive priority (one
    /// timeslot), the call is set up (see `echo_setup_from`).
    pub fn fsm_on_u_setup_p2p_local_echo(
        &mut self,
        queue: &mut Vec<CcAction>,
        handle: u32,
        link_id: u32,
        endpoint_id: u32,
        calling: TetraAddress,
        echo: TetraAddress,
        pdu: USetup,
    )
        requires
            old(self).wf(),
        ensures
            final(self).wf(),
            old(self).echo_request_handled(*final(self), old(queue)@, final(queue)@, handle, link_id, endpoint_id, calling, echo, pdu),
    {
        if self.involved_in_individual_call(calling.ssi) {
            self.reject_setup_request(queue, handle, link_id, endpoint_id, calling, DisconnectCause::ConcurrentSetUpNotSupported);
            return;
        }
        let ok = self.ensure_timeslots_for_priority(queue, 1, pdu.call_priority);
        let ghost mid = *self;
        let ghost qm = queue@;
        let c = match self.circuits.allocate_circuit(Direction::Both, pdu.service.comm_type, pdu.simplex_duplex) {
            Ok(c) => c,
            Err(_) => {
                self.reject_setup_request(
                    queue,
                    handle,
                    link_id,
                    endpoint_id,
                    calling,
                    DisconnectCause::CongestionInInfrastructure,
                );
                return;
            },
        };
        let ghost m1 = self.circuits;
        let ghost s1 = *self;
        let call_id = c.call_id;
        let slot = CarrierSlot { carrier_num: c.carrier_num, ts: c.ts };
        let call = IndividualCall {
            calling_addr: calling,
            called_addr: echo,
            calling_handle: handle,
            calling_link_id: link_id,
            calling_endpoint_id: endpoint_id,
            called_handle: None,
            called_link_id: None,
            called_endpoint_id: None,
            calling_carrier_num: c.carrier_num,
            calling_ts: c.ts,
            called_carrier_num: c.carrier_num,
            called_ts: c.ts,
            calling_usage: c.usage,
            called_usage: c.usage,
            simplex_duplex: pdu.simplex_duplex,
            priority: pdu.call_priority,
            state: IndividualCallState::CallSetupPending,
            setup_timer_started: Some(self.dltime),
            setup_timeout: Some(CallTimeoutSetupPhase::T10s),
            active_timer_started: None,
            call_timeout: CallTimeout::T5m,
            called_over_brew: false,
            calling_over_brew: false,
            brew_uuid: None,
            connect_request_sent: false,
            floor_holder: None,
            hook_method: pdu.hook_method,
            service: pdu.service,
            network_params: None,
        };
        match self.fsm_individual_create_setup_call(call_id, call) {
            Ok(()) => {},
            Err(_) => {
                let ghost s_before = *self;
                self.abort_individual_setup(
                    queue,
                    call_id,
                    calling,
                    handle,
                    link_id,
                    endpoint_id,
                    slot,
                    slot,
                    DisconnectCause::NoIdleCcEntity,
                );
                proof {
                    assert(mid.individual().contains_key(call_id));
                    assert(mid.same_context(s_before));
                    assert(s_before.setups() == mid.setups());
                    assert(s_before.individual() == mid.individual());
                    assert(s_before.circuit_mgr() == m1);
                    assert(slot == slot_of_circuit(c));
                    assert(both_opened(mid.circuit_mgr(), m1, c, true));
                }
                return;
            },
        }
        let ghost s_created = *self;
        match self.fsm_individual_transition_to_active(call_id) {
            Ok(()) => {},
            Err(_) => {
                self.abort_individual_setup(
                    queue,
                    call_id,
                    calling,
                    handle,
                    link_id,
                    endpoint_id,
                    slot,
                    slot,
                    DisconnectCause::IncompatibleTrafficCase,
                );
                return;
            },
        }
        queue.push(CcAction::CircuitOpen { circuit: c });
        queue.push(
            CcAction::DCallProceeding {
                call_id,
                to: calling,
                handle,
                link_id,
                endpoint_id,
                setup_timeout: CallTimeoutSetupPhase::T10s,
                hook_method: pdu.hook_method,
                simplex_duplex: pdu.simplex_duplex,
            },
        );
        queue.push(
            CcAction::DConnectCaller {
                call_id,
                to: calling,
                handle,
                link_id,
                endpoint_id,
                call_timeout: CallTimeout::T5m,
                hook_method: pdu.hook_method,
                simplex_duplex: pdu.simplex_duplex,
                usage: c.usage,
                carrier_num: c.carrier_num,
                ts: c.ts,
            },
        );
        if !pdu.simplex_duplex {
            let mut cur = *self.individual_calls.get(&call_id).unwrap();
            cur.floor_holder = Some(calling.ssi);
            self.individual_calls.insert(call_id, cur);
            if self.telemetry {
                queue.push(
                    CcAction::CallSpeakerChanged {
                        call_id,
                        is_group: false,
                        dest_addr: ECHO_ISSI,
                        speaker_issi: calling.ssi,
                        carrier_num: c.carrier_num,
                        ts: c.ts,
                    },
                );
            }
            queue.push(
                CcAction::FloorGranted {
                    dest: ControlDest::Umac,
                    call_id,
                    source_issi: calling.ssi,
                    dest_gssi: ECHO_ISSI,
                    ts: c.ts,
                },
            );
        }
        proof {
            assert(both_opened(mid.circuit_mgr(), m1, c, true));
            assert(!mid.individual().contains_key(call_id));
            assert(mid.same_context(*self));
            assert(self.setups() == mid.setups());
            assert(self.circuit_mgr() == m1);
            assert(queue@ =~= qm + seq![
                CcAction::CircuitOpen { circuit: c },
                CcAction::DCallProceeding {
                    call_id,
                    to: calling,
                    handle,
                    link_id,
                    endpoint_id,
                    setup_timeout: CallTimeoutSetupPhase::T10s,
                    hook_method: pdu.hook_method,
                    simplex_duplex: pdu.simplex_duplex,
                },
                CcAction::DConnectCaller {
                    call_id,
                    to: calling,
                    handle,
                    link_id,
                    endpoint_id,
                    call_timeout: CallTimeout::T5m,
                    hook_method: pdu.hook_method,
                    simplex_duplex: pdu.simplex_duplex,
                    usage: c.usage,
                    carrier_num: c.carrier_num,
                    ts: c.ts,
                },
            ] + if pdu.simplex_duplex {
                Seq::<CcAction>::empty()
            } else {
                (if mid.spec_telemetry() {
                    seq![
                        CcAction::CallSpeakerChanged {
                            call_id,
                            is_group: false,
                            dest_addr: ECHO_ISSI,
                            speaker_issi: calling.ssi,
                            carrier_num: c.carrier_num,
                            ts: c.ts,
                        },
                    ]
                } else {
                    Seq::<CcAction>::empty()
                }) + seq![
                    CcAction::FloorGranted {
                        dest: ControlDest::Umac,
                        call_id,
                        source_issi: calling.ssi,
                        dest_gssi: ECHO_ISSI,
                        ts: c.ts,
                    },
                ]
            });
            assert(self.individual_calls@ =~= mid.individual().insert(
                call_id,
                IndividualCall {
                    state: IndividualCallState::Active,
                    setup_timer_started: None,
                    setup_timeout: None,
                    active_timer_started: Some(mid.spec_dltime()),
                    floor_holder: if pdu.simplex_duplex { None } else { Some(calling.ssi) },
                    ..new_individual_call(
                        calling,
                        echo,
                        handle,
                        link_id,
                        endpoint_id,
                        c,
                        c,
                        pdu,
                        mid.spec_dltime(),
                        CallTimeoutSetupPhase::T10s,
                        CallTimeout::T5m,
                        false,
                        None,
                    )
                },
            ));
        }
    }

    /// Some individual call has `issi` as its calling or called party.
    pub(crate) fn involved_in_individual_call(&self, issi: u32) -> (r: bool)
        ensures
            r == !calls_involving(self.individual(), issi).is_empty(),
    {
        let ids = crate::collections::map_keys(&self.individual_calls);
        let mut i: usize = 0;
        while i < ids.len()
            invariant
                ids@.to_set() == self.individual().dom(),
                i <= ids@.len(),
                forall|j: int| #![trigger ids@[j]] 0 <= j < i ==> self.individual()[ids@[j]].calling_addr.ssi != issi
                    && self.individual()[ids@[j]].called_addr.ssi != issi,
            decreases ids@.len() - i,
        {
            let id = ids[i];
            assert(ids@.to_set().contains(id));
            let c = self.individual_calls.get(&id).unwrap();
            if c.calling_addr.ssi == issi || c.called_addr.ssi == issi {
                assert(calls_involving(self.individual(), issi).contains(id));
                return true;
            }
            i = i + 1;
        }
        proof {
            assert(calls_involving(self.individual(), issi) =~= Set::<u16>::empty()) by {
                assert forall|id: u16| !#[trigger] calls_involving(self.individual(), issi).contains(id) by {
                    if self.individual().contains_key(id) {
                        assert(ids@.to_set().contains(id));
                        let j = choose|j: int| 0 <= j < ids@.len() && ids@[j] == id;
                        assert(ids@[j] == id);
                    }
                }
            }
        }
        false
    }
}

} // verus!
