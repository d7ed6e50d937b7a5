use tetra_entities::cmce::cc_bs::call::{BasicService, CallTimeout, CallTimeoutSetupPhase, NetworkCallParams};
use tetra_entities::cmce::cc_bs::subentity::network_circuit::{
    call_timeout_from_raw, circuit_mode_from_raw, comm_type_from_raw, grant_from_raw, NetworkCircuitCall,
};
use tetra_entities::cmce::cc_bs::subentity::setup::{PartyTypeIdentifier, USetup};
use tetra_entities::cmce::cc_bs::subentity::{
    CallControl, CcAction, CcBsSubentity, CcConfig, ControlDest, DisconnectCause, MmSubscriberUpdate, PduRoute,
    SubscriberAction, TransmissionGrant,
};
use tetra_entities::cmce::components::circuit_mgr::{CircuitModeType, CommunicationType};
use tetra_entities::cmce::type3::Type3FieldGeneric;
use tetra_entities::net_brew::brew_routable::{BrewConfig, RoutingConfig};
use tetra_entities::tdma::{SsiType, TetraAddress};

fn config(brew: bool) -> CcConfig {
    CcConfig {
        routing: RoutingConfig {
            brew: if brew {
                Some(BrewConfig {
                    host: "example.invalid".to_string(),
                    feature_sds_enabled: false,
                    whitelisted_ssis: None,
                    pbx_gateway_issis: None,
                })
            } else {
                None
            },
            local_ssi_ranges: Vec::new(),
        },
        call_timeout_secs: 120,
        network_connected: true,
    }
}

fn ms(ssi: u32) -> TetraAddress {
    TetraAddress { ssi, ssi_type: SsiType::Issi }
}

fn speech(comm_type: CommunicationType) -> BasicService {
    BasicService { circuit_mode: CircuitModeType::TchS, encryption: false, comm_type, speech_service: Some(0) }
}

fn setup(called: Option<u32>, comm_type: CommunicationType, duplex: bool, priority: u8) -> USetup {
    USetup {
        area_selection: 0,
        hook_method: false,
        simplex_duplex: duplex,
        service: speech(comm_type),
        call_priority: priority,
        called_party_type: PartyTypeIdentifier::Ssi,
        called_party_short_number: None,
        called_party_ssi: called,
        called_party_extension: None,
        external_subscriber_number: None,
        request_to_transmit: false,
    }
}

fn register(cc: &mut CcBsSubentity, issi: u32, groups: Vec<u32>) {
    let mut q = Vec::new();
    let action = if groups.is_empty() { SubscriberAction::Register } else { SubscriberAction::Affiliate };
    cc.handle_subscriber_update(&mut q, MmSubscriberUpdate { issi, groups, action });
}

#[test]
fn group_setup_opens_circuit_and_notifies() {
    let mut cc = CcBsSubentity::new(config(true));
    register(&mut cc, 100, vec![1000]);
    let mut q = Vec::new();
    cc.fsm_on_u_setup(&mut q, 7, 8, 9, ms(100), setup(Some(1000), CommunicationType::P2Mp, false, 0));
    assert_eq!(q.len(), 5);
    let circuit = match q[0] {
        CcAction::CircuitOpen { circuit } => circuit,
        other => panic!("unexpected {:?}", other),
    };
    assert_eq!((circuit.call_id, circuit.ts, circuit.usage), (4, 2, 4));
    assert_eq!(
        q[1],
        CcAction::DCallProceeding {
            call_id: 4,
            to: ms(100),
            handle: 7,
            link_id: 8,
            endpoint_id: 9,
            setup_timeout: CallTimeoutSetupPhase::T10s,
            hook_method: false,
            simplex_duplex: false,
        }
    );
    assert!(matches!(q[2], CcAction::DConnectCaller { call_id: 4, ts: 2, usage: 4, call_timeout: CallTimeout::T2m, .. }));
    assert!(matches!(q[3], CcAction::DSetupGroup { call_id: 4, calling_issi: 100, ts: 2, priority: 0, .. }));
    assert_eq!(q[4], CcAction::FloorGranted { dest: ControlDest::Brew, call_id: 4, source_issi: 100, dest_gssi: 1000, ts: 2 });
}

#[test]
fn group_setup_without_listener_is_ignored() {
    let mut cc = CcBsSubentity::new(config(true));
    let mut q = Vec::new();
    cc.fsm_on_u_setup(&mut q, 7, 8, 9, ms(100), setup(Some(1000), CommunicationType::P2Mp, false, 0));
    assert!(q.is_empty());
}

#[test]
fn unsupported_setup_is_refused() {
    let mut cc = CcBsSubentity::new(config(true));
    let mut q = Vec::new();
    // Duplex is only offered for individual calls.
    cc.fsm_on_u_setup(&mut q, 7, 8, 9, ms(100), setup(Some(1000), CommunicationType::P2Mp, true, 0));
    assert_eq!(
        q,
        vec![CcAction::DReleaseLink {
            call_id: 4,
            to: ms(100),
            cause: DisconnectCause::IncompatibleTrafficCase,
            handle: 7,
            link_id: 8,
            endpoint_id: 9,
        }]
    );
}

#[test]
fn emergency_group_call_preempts_lowest_priority_call() {
    let mut cc = CcBsSubentity::new(config(false));
    for (issi, gssi) in [(100, 1000), (101, 1001), (102, 1002), (103, 1003)] {
        register(&mut cc, issi, vec![gssi]);
    }
    let mut q = Vec::new();
    cc.fsm_on_u_setup(&mut q, 1, 1, 1, ms(100), setup(Some(1000), CommunicationType::P2Mp, false, 2));
    cc.fsm_on_u_setup(&mut q, 1, 1, 1, ms(101), setup(Some(1001), CommunicationType::P2Mp, false, 1));
    cc.fsm_on_u_setup(&mut q, 1, 1, 1, ms(102), setup(Some(1002), CommunicationType::P2Mp, false, 1));
    // The cell is full: an ordinary call is refused for congestion.
    q.clear();
    cc.fsm_on_u_setup(&mut q, 1, 1, 1, ms(103), setup(Some(1003), CommunicationType::P2Mp, false, 0));
    assert!(matches!(q[..], [CcAction::DReleaseLink { cause: DisconnectCause::CongestionInInfrastructure, .. }]));
    // An emergency call releases the lowest-priority call (the first of the two at priority 1).
    q.clear();
    cc.fsm_on_u_setup(&mut q, 1, 1, 1, ms(103), setup(Some(1003), CommunicationType::P2Mp, false, 15));
    assert!(matches!(
        q[0],
        CcAction::DRelease { call_id: 5, cause: DisconnectCause::PreEmptiveUseOfResource, ts: None, .. }
    ));
    assert!(q.iter().any(|a| matches!(a, CcAction::DSetupGroup { calling_issi: 103, priority: 15, ts: 3, .. })));
}

#[test]
fn local_individual_call_set_up_connected_and_disconnected() {
    let mut cc = CcBsSubentity::new(config(false));
    register(&mut cc, 100, vec![]);
    register(&mut cc, 101, vec![]);
    let mut q = Vec::new();
    cc.fsm_on_u_setup(&mut q, 10, 11, 12, ms(100), setup(Some(101), CommunicationType::P2p, false, 0));
    assert_eq!(q.len(), 2);
    assert!(matches!(q[0], CcAction::DCallProceeding { call_id: 4, setup_timeout: CallTimeoutSetupPhase::T60s, .. }));
    assert!(matches!(
        q[1],
        CcAction::DSetupIndividual { call_id: 4, calling_issi: 100, grant: TransmissionGrant::GrantedToOtherUser, .. }
    ));

    // A second caller to the same party finds it busy.
    register(&mut cc, 102, vec![]);
    q.clear();
    cc.fsm_on_u_setup(&mut q, 1, 2, 3, ms(102), setup(Some(101), CommunicationType::P2p, false, 0));
    assert!(matches!(q[..], [CcAction::DReleaseLink { cause: DisconnectCause::CalledPartyBusy, .. }]));

    // The called party alerts, then answers.
    q.clear();
    cc.fsm_on_u_alert(&mut q, 20, 21, 22, 4);
    assert!(matches!(q[..], [CcAction::DAlert { call_id: 4, handle: 10, .. }]));
    q.clear();
    cc.fsm_on_u_connect(&mut q, 20, 21, 22, 4, false, false);
    assert_eq!(q.len(), 5);
    assert!(matches!(q[0], CcAction::IndividualCircuitOpen { peer_ts: None, .. }));
    assert!(matches!(q[1], CcAction::DConnectIndividual { stealing: true, grant: TransmissionGrant::GrantedToOtherUser, .. }));
    assert!(matches!(q[2], CcAction::DConnectIndividual { stealing: false, .. }));
    assert!(matches!(q[3], CcAction::DConnectAck { handle: 20, stealing: true, .. }));
    assert!(matches!(q[4], CcAction::DConnectAck { handle: 20, stealing: false, .. }));

    // The caller hangs up: the called party hears D-DISCONNECT on its traffic channel.
    q.clear();
    cc.fsm_on_u_disconnect(&mut q, ms(100), 10, 11, 12, 4, DisconnectCause::UserRequestedDisconnection);
    assert_eq!(
        q[0],
        CcAction::DDisconnect {
            call_id: 4,
            to: ms(101),
            cause: DisconnectCause::UserRequestedDisconnection,
            route: PduRoute::Stolen { ts: 2, usage: 4 },
        }
    );
    // The call is gone: a repeated disconnect is ignored.
    q.clear();
    cc.fsm_on_u_disconnect(&mut q, ms(100), 10, 11, 12, 4, DisconnectCause::UserRequestedDisconnection);
    assert!(q.is_empty());
}

#[test]
fn call_to_echo_service_is_active_at_once() {
    let mut cc = CcBsSubentity::new(config(false));
    register(&mut cc, 100, vec![]);
    let mut q = Vec::new();
    cc.fsm_on_u_setup(&mut q, 1, 2, 3, ms(100), setup(Some(999), CommunicationType::P2p, false, 0));
    assert_eq!(q.len(), 4);
    assert!(matches!(q[0], CcAction::CircuitOpen { .. }));
    assert!(matches!(q[1], CcAction::DCallProceeding { setup_timeout: CallTimeoutSetupPhase::T10s, .. }));
    assert!(matches!(q[2], CcAction::DConnectCaller { call_timeout: CallTimeout::T5m, .. }));
    assert_eq!(q[3], CcAction::FloorGranted { dest: ControlDest::Umac, call_id: 4, source_issi: 100, dest_gssi: 999, ts: 2 });
}

#[test]
fn call_to_unknown_issi_goes_over_brew() {
    let mut cc = CcBsSubentity::new(config(true));
    register(&mut cc, 100, vec![]);
    let mut q = Vec::new();
    cc.fsm_on_u_setup(&mut q, 1, 2, 3, ms(100), setup(Some(5000), CommunicationType::P2p, true, 0));
    assert_eq!(q.len(), 2);
    match q[1] {
        CcAction::NetworkCircuitSetupRequest { brew_uuid, source_issi, destination, duplex, timeout, .. } => {
            assert_eq!((source_issi, destination, duplex, timeout), (100, 5000, true, CallTimeout::Infinite));
            // A random version-4 UUID.
            assert_eq!((brew_uuid >> 76) & 0xF, 4);
        },
        other => panic!("unexpected {:?}", other),
    }
    // Without Brew the same call is refused.
    let mut cc = CcBsSubentity::new(config(false));
    register(&mut cc, 100, vec![]);
    q.clear();
    cc.fsm_on_u_setup(&mut q, 1, 2, 3, ms(100), setup(Some(5000), CommunicationType::P2p, false, 0));
    assert!(matches!(q[..], [CcAction::DReleaseLink { cause: DisconnectCause::RequestedServiceNotAvailable, .. }]));
}

#[test]
fn call_without_called_party_is_refused() {
    let mut cc = CcBsSubentity::new(config(true));
    let mut q = Vec::new();
    cc.fsm_on_u_setup(&mut q, 1, 2, 3, ms(100), setup(None, CommunicationType::P2p, false, 0));
    assert!(matches!(q[..], [CcAction::DReleaseLink { cause: DisconnectCause::UnknownTetraIdentity, .. }]));
}

fn brew_call(destination: u32) -> NetworkCircuitCall {
    NetworkCircuitCall {
        source_issi: 2000,
        destination,
        number: "12*3".to_string(),
        priority: 0,
        service: 0,
        mode: 0,
        duplex: 0,
        method: 0,
        communication: 0,
        grant: 0,
        permission: 0,
        timeout: 7,
        ownership: 0,
        queued: 0,
    }
}

#[test]
fn incoming_brew_call_to_local_ms() {
    let mut cc = CcBsSubentity::new(config(true));
    let mut q = Vec::new();
    // Not registered here.
    cc.rx_call_control(&mut q, CallControl::NetworkCircuitSetupRequest { brew_uuid: 9, call: brew_call(101) });
    assert_eq!(q, vec![CcAction::NetworkCircuitSetupReject { brew_uuid: 9, cause: DisconnectCause::CalledPartyNotReachable }]);

    register(&mut cc, 101, vec![]);
    q.clear();
    cc.rx_call_control(&mut q, CallControl::NetworkCircuitSetupRequest { brew_uuid: 9, call: brew_call(101) });
    assert_eq!(q.len(), 2);
    assert_eq!(q[0], CcAction::NetworkCircuitSetupAccept { brew_uuid: 9 });
    match q[1] {
        CcAction::DSetupNetwork { call_id, to, calling_issi, call_timeout, external_number, .. } => {
            assert_eq!((call_id, to, calling_issi, call_timeout), (4, ms(101), 2000, CallTimeout::T5m));
            let f = external_number.unwrap();
            assert_eq!((f.len, f.data), (16, 0x12A3));
        },
        other => panic!("unexpected {:?}", other),
    }
    // The called MS alerts and answers: Brew hears of both.
    q.clear();
    cc.fsm_on_u_alert(&mut q, 5, 6, 7, 4);
    assert_eq!(q, vec![CcAction::NetworkCircuitAlert { brew_uuid: 9 }]);
    q.clear();
    cc.fsm_on_u_connect(&mut q, 5, 6, 7, 4, false, true);
    assert_eq!(
        q,
        vec![CcAction::NetworkCircuitConnectRequest {
            brew_uuid: 9,
            source_issi: 2000,
            destination: 101,
            duplex: false,
            hook_method: true,
            params: NetworkCallParams { priority: 0, service: 0, mode: 0, communication: 0, timeout: 7, ownership: 0, queued: 0 },
        }]
    );
    // Brew confirms: the called MS is connected on its traffic channel.
    q.clear();
    cc.rx_call_control(&mut q, CallControl::NetworkCircuitConnectConfirm { brew_uuid: 9, grant: 0, permission: 0 });
    assert_eq!(q.len(), 3);
    assert!(matches!(q[0], CcAction::DConnectAckNetwork { call_id: 4, handle: 5, grant: TransmissionGrant::Granted, .. }));
    assert!(matches!(q[1], CcAction::NetworkCircuitOpen { .. }));
    assert_eq!(q[2], CcAction::NetworkCircuitMediaReady { brew_uuid: 9, call_id: 4, ts: 2 });
}

#[test]
fn raw_element_values() {
    assert_eq!(comm_type_from_raw(1), Some(CommunicationType::P2Mp));
    assert_eq!(comm_type_from_raw(4), None);
    assert_eq!(circuit_mode_from_raw(7), Some(CircuitModeType::Tch24N8));
    assert_eq!(circuit_mode_from_raw(8), None);
    assert_eq!(call_timeout_from_raw(7), Some(CallTimeout::T5m));
    assert_eq!(call_timeout_from_raw(15), Some(CallTimeout::Reserved));
    assert_eq!(call_timeout_from_raw(16), None);
    assert_eq!(grant_from_raw(3), TransmissionGrant::GrantedToOtherUser);
    assert_eq!(grant_from_raw(5), TransmissionGrant::NotGranted);
}

fn dtmf(len: usize, bits: u64) -> Option<Type3FieldGeneric> {
    // `bits` holds the `len` payload bits right-aligned; the element keeps them MSB-first.
    Some(Type3FieldGeneric { field_id: 0, len, data: bits << (64 - len) })
}

/// An incoming Brew call to local MS 101, answered and confirmed: call 4 is active.
fn active_brew_call(cc: &mut CcBsSubentity) {
    let mut q = Vec::new();
    register(cc, 101, vec![]);
    cc.rx_call_control(&mut q, CallControl::NetworkCircuitSetupRequest { brew_uuid: 9, call: brew_call(101) });
    cc.fsm_on_u_connect(&mut q, 5, 6, 7, 4, false, true);
    cc.rx_call_control(&mut q, CallControl::NetworkCircuitConnectConfirm { brew_uuid: 9, grant: 0, permission: 0 });
}

#[test]
fn dtmf_of_brew_call_is_forwarded_digit_by_digit() {
    let mut cc = CcBsSubentity::new(config(true));
    let mut q = Vec::new();
    register(&mut cc, 101, vec![]);
    cc.rx_call_control(&mut q, CallControl::NetworkCircuitSetupRequest { brew_uuid: 9, call: brew_call(101) });
    // Not yet active: U-INFO is ignored.
    q.clear();
    cc.fsm_on_u_info(&mut q, ms(101), 5, 6, 7, 4, None, dtmf(11, 0b000_0001_0010));
    assert!(q.is_empty());
    cc.fsm_on_u_connect(&mut q, 5, 6, 7, 4, false, true);
    cc.rx_call_control(&mut q, CallControl::NetworkCircuitConnectConfirm { brew_uuid: 9, grant: 0, permission: 0 });
    // Tone start (000) with digits 1 and 2.
    q.clear();
    cc.fsm_on_u_info(&mut q, ms(101), 5, 6, 7, 4, None, dtmf(11, 0b000_0001_0010));
    assert_eq!(
        q,
        vec![CcAction::NetworkCircuitDtmf { brew_uuid: 9, digit: b'1' }, CcAction::NetworkCircuitDtmf { brew_uuid: 9, digit: b'2' }]
    );
    // Edition-1 digit string: 9 and *.
    q.clear();
    cc.fsm_on_u_info(&mut q, ms(101), 5, 6, 7, 4, None, dtmf(8, 0b1001_1010));
    assert_eq!(
        q,
        vec![CcAction::NetworkCircuitDtmf { brew_uuid: 9, digit: b'9' }, CcAction::NetworkCircuitDtmf { brew_uuid: 9, digit: b'*' }]
    );
    // Tone end, no DTMF element, or a modification over Brew: nothing.
    q.clear();
    cc.fsm_on_u_info(&mut q, ms(101), 5, 6, 7, 4, None, dtmf(3, 0b001));
    cc.fsm_on_u_info(&mut q, ms(101), 5, 6, 7, 4, None, None);
    cc.fsm_on_u_info(&mut q, ms(101), 5, 6, 7, 4, Some(0x12), None);
    assert!(q.is_empty());
}

#[test]
fn u_info_for_unknown_call_is_released() {
    let mut cc = CcBsSubentity::new(config(true));
    active_brew_call(&mut cc);
    let mut q = Vec::new();
    cc.fsm_on_u_info(&mut q, ms(101), 5, 6, 7, 77, None, dtmf(8, 0x12));
    assert_eq!(
        q,
        vec![CcAction::DReleaseLink {
            call_id: 77,
            to: ms(101),
            cause: DisconnectCause::InvalidCallIdentifier,
            handle: 5,
            link_id: 6,
            endpoint_id: 7,
        }]
    );
}

#[test]
fn dtmf_of_local_call_is_not_forwarded() {
    let mut cc = CcBsSubentity::new(config(true));
    let mut q = Vec::new();
    register(&mut cc, 101, vec![]);
    register(&mut cc, 102, vec![]);
    cc.fsm_on_u_setup(&mut q, 1, 2, 3, ms(101), setup(Some(102), CommunicationType::P2p, false, 0));
    assert!(matches!(q[0], CcAction::DCallProceeding { call_id: 4, .. }));
    cc.fsm_on_u_alert(&mut q, 20, 21, 22, 4);
    cc.fsm_on_u_connect(&mut q, 20, 21, 22, 4, false, false);
    q.clear();
    cc.fsm_on_u_info(&mut q, ms(101), 1, 2, 3, 4, None, dtmf(8, 0x12));
    assert!(q.is_empty());
}

#[test]
fn u_info_modify_goes_to_the_other_party() {
    let mut cc = CcBsSubentity::new(config(false));
    let mut q = Vec::new();
    register(&mut cc, 101, vec![]);
    register(&mut cc, 102, vec![]);
    cc.fsm_on_u_setup(&mut q, 1, 2, 3, ms(101), setup(Some(102), CommunicationType::P2p, false, 0));
    // Before the call is connected, a modification is ignored.
    q.clear();
    cc.fsm_on_u_info(&mut q, ms(101), 1, 2, 3, 4, Some(0x5), None);
    assert!(q.is_empty());
    cc.fsm_on_u_alert(&mut q, 20, 21, 22, 4);
    cc.fsm_on_u_connect(&mut q, 20, 21, 22, 4, false, false);
    q.clear();
    cc.fsm_on_u_info(&mut q, ms(101), 1, 2, 3, 4, Some(0x5), None);
    assert_eq!(q.len(), 1);
    assert!(matches!(q[0], CcAction::DInfoModify { call_id: 4, modify: 0x5, .. }));
    match q[0] {
        CcAction::DInfoModify { to, .. } => assert_eq!(to, ms(102)),
        other => panic!("unexpected {:?}", other),
    }
    q.clear();
    cc.fsm_on_u_info(&mut q, ms(102), 20, 21, 22, 4, Some(0x6), None);
    assert!(matches!(q[..], [CcAction::DInfoModify { to, modify: 0x6, .. }] if to == ms(101)));
    // A sender who is neither party: nothing.
    q.clear();
    cc.fsm_on_u_info(&mut q, ms(555), 1, 2, 3, 4, Some(0x6), None);
    assert!(q.is_empty());
}

#[test]
fn individual_call_telemetry_reports_start_and_one_end() {
    let mut cc = CcBsSubentity::new(config(false));
    cc.set_telemetry();
    register(&mut cc, 100, vec![]);
    register(&mut cc, 101, vec![]);
    let mut q = Vec::new();
    cc.fsm_on_u_setup(&mut q, 10, 11, 12, ms(100), setup(Some(101), CommunicationType::P2p, false, 0));
    assert_eq!(q.len(), 3);
    assert_eq!(q[0], CcAction::IndividualCallStarted { call_id: 4, calling_issi: 100, called_issi: 101, simplex: true });
    assert!(matches!(q[1], CcAction::DCallProceeding { call_id: 4, .. }));
    // Kicking the caller releases the call: exactly one end event.
    q.clear();
    assert!(cc.kick_ms(&mut q, 100));
    let ends = q.iter().filter(|a| matches!(a, CcAction::IndividualCallEnded { call_id: 4 })).count();
    assert_eq!(ends, 1);
    // Kicking an unknown ISSI changes nothing.
    q.clear();
    assert!(!cc.kick_ms(&mut q, 555));
    assert!(q.is_empty());
}

#[test]
fn unexpected_media_ready_is_ignored() {
    let mut cc = CcBsSubentity::new(config(true));
    register(&mut cc, 100, vec![1000]);
    let mut q = Vec::new();
    cc.rx_call_control(&mut q, CallControl::NetworkCircuitMediaReady { brew_uuid: 7 });
    cc.rx_call_control(&mut q, CallControl::NetworkCircuitSetupAccept { brew_uuid: 7 });
    assert!(q.is_empty());
    assert_eq!(cc.subscriber_groups_for(100), vec![1000]);
}

#[test]
fn affiliations_follow_the_update_sequence() {
    let mut cc = CcBsSubentity::new(config(false));
    let mut q = Vec::new();
    cc.handle_subscriber_update(&mut q, MmSubscriberUpdate { issi: 100, groups: vec![], action: SubscriberAction::Register });
    cc.handle_subscriber_update(&mut q, MmSubscriberUpdate { issi: 100, groups: vec![1000, 1001], action: SubscriberAction::Affiliate });
    cc.handle_subscriber_update(&mut q, MmSubscriberUpdate { issi: 101, groups: vec![1001], action: SubscriberAction::Affiliate });
    assert!(q.is_empty());
    let mut g = cc.subscriber_groups_for(100);
    g.sort();
    assert_eq!(g, vec![1000, 1001]);
    cc.handle_subscriber_update(&mut q, MmSubscriberUpdate { issi: 100, groups: vec![1000], action: SubscriberAction::Deaffiliate });
    assert_eq!(cc.subscriber_groups_for(100), vec![1001]);
    assert!(!cc.has_listener(1000));
    assert!(cc.has_listener(1001));
    cc.handle_subscriber_update(&mut q, MmSubscriberUpdate { issi: 100, groups: vec![], action: SubscriberAction::Deregister });
    assert!(cc.subscriber_groups_for(100).is_empty());
    assert!(cc.has_listener(1001));
    assert!(cc.kick_ms(&mut q, 101));
    assert!(!cc.has_listener(1001));
    assert!(cc.subscriber_issis().is_empty());
}

#[test]
fn group_setup_telemetry_reports_start_and_speaker() {
    let mut cc = CcBsSubentity::new(config(false));
    cc.set_telemetry();
    register(&mut cc, 100, vec![1000]);
    let mut q = Vec::new();
    cc.fsm_on_u_setup(&mut q, 7, 8, 9, ms(100), setup(Some(1000), CommunicationType::P2Mp, false, 3));
    assert_eq!(q.len(), 6);
    assert_eq!(
        q[4],
        CcAction::GroupCallStarted { call_id: 4, gssi: 1000, caller_issi: 100, carrier_num: 0, ts: 2, priority: 3 }
    );
    assert_eq!(
        q[5],
        CcAction::CallSpeakerChanged { call_id: 4, is_group: true, dest_addr: 1000, speaker_issi: 100, carrier_num: 0, ts: 2 }
    );
}

#[test]
fn connect_request_carries_brews_own_setup_fields() {
    let mut cc = CcBsSubentity::new(config(true));
    let mut q = Vec::new();
    register(&mut cc, 101, vec![]);
    let mut call = brew_call(101);
    call.priority = 3;
    call.service = 1;
    call.communication = 0;
    call.timeout = 5;
    call.ownership = 1;
    call.queued = 1;
    cc.rx_call_control(&mut q, CallControl::NetworkCircuitSetupRequest { brew_uuid: 9, call });
    q.clear();
    cc.fsm_on_u_connect(&mut q, 5, 6, 7, 4, true, false);
    assert_eq!(
        q,
        vec![CcAction::NetworkCircuitConnectRequest {
            brew_uuid: 9,
            source_issi: 2000,
            destination: 101,
            duplex: true,
            hook_method: false,
            params: NetworkCallParams { priority: 3, service: 1, mode: 0, communication: 0, timeout: 5, ownership: 1, queued: 1 },
        }]
    );
}
