use tetra_entities::cmce::cc_bs::call::{BasicService, CallTimeout, CallTimeoutSetupPhase, IndividualCall, IndividualCallState};
use tetra_entities::cmce::cc_bs::subentity::{
    disconnect_cause_from_raw, CallControl, CcAction, CcBsSubentity, CcConfig, ControlDest, DisconnectCause,
    IndividualTransitionError, LcmcUnitdataInd, MmSubscriberUpdate, SubscriberAction, TransmissionGrant,
    UlDlAssignment, XxDelivery,
};
use tetra_entities::cmce::pdu_type::CmcePduTypeUl;
use tetra_entities::cmce::components::circuit_mgr::{CircuitModeType, CommunicationType};
use tetra_entities::net_brew::brew_routable::{BrewConfig, RoutingConfig};
use tetra_entities::tdma::{SsiType, TetraAddress};

fn brew_config() -> CcConfig {
    CcConfig {
        routing: RoutingConfig {
            brew: Some(BrewConfig {
                host: "example.invalid".to_string(),
                feature_sds_enabled: false,
                whitelisted_ssis: None,
                pbx_gateway_issis: None,
            }),
            local_ssi_ranges: Vec::new(),
        },
        call_timeout_secs: 120,
        network_connected: true,
    }
}

fn update(issi: u32, groups: Vec<u32>, action: SubscriberAction) -> MmSubscriberUpdate {
    MmSubscriberUpdate { issi, groups, action }
}

fn ms(ssi: u32) -> TetraAddress {
    TetraAddress { ssi, ssi_type: SsiType::Issi }
}

fn group(ssi: u32) -> TetraAddress {
    TetraAddress { ssi, ssi_type: SsiType::Gssi }
}

#[test]
fn affiliations_drive_group_listeners() {
    let mut cc = CcBsSubentity::new(brew_config());
    let mut q = Vec::new();
    cc.handle_subscriber_update(&mut q, update(100, vec![], SubscriberAction::Register));
    assert_eq!(cc.subscriber_issis(), vec![100]);
    assert!(cc.subscriber_groups_for(100).is_empty());
    cc.handle_subscriber_update(&mut q, update(100, vec![1000, 1001, 1000], SubscriberAction::Affiliate));
    let mut groups = cc.subscriber_groups_for(100);
    groups.sort();
    assert_eq!(groups, vec![1000, 1001]);
    assert!(cc.has_listener(1000) && cc.has_listener(1001));
    assert!(!cc.has_listener(1002));
    // A second subscriber on the same group; an affiliation also registers an unknown ISSI.
    cc.handle_subscriber_update(&mut q, update(101, vec![1000], SubscriberAction::Affiliate));
    let mut issis = cc.subscriber_issis();
    issis.sort();
    assert_eq!(issis, vec![100, 101]);
    cc.handle_subscriber_update(&mut q, update(100, vec![1000], SubscriberAction::Deaffiliate));
    assert!(cc.has_listener(1000));
    assert_eq!(cc.subscriber_groups_for(100), vec![1001]);
    cc.handle_subscriber_update(&mut q, update(101, vec![], SubscriberAction::Deregister));
    assert!(!cc.has_listener(1000));
    assert!(cc.has_listener(1001));
    assert!(cc.subscriber_groups_for(101).is_empty());
    cc.handle_subscriber_update(&mut q, update(100, vec![], SubscriberAction::Deregister));
    assert!(!cc.has_listener(1001));
    assert!(cc.subscriber_issis().is_empty());
    // No calls were running, so nothing was sent.
    assert!(q.is_empty());
}

#[test]
fn network_call_without_listeners_is_refused() {
    let mut cc = CcBsSubentity::new(brew_config());
    let mut q = Vec::new();
    cc.rx_call_control(&mut q, CallControl::NetworkCallStart { brew_uuid: 7, source_issi: 2000, dest_gssi: 1000, priority: 0 });
    assert_eq!(q, vec![CcAction::NetworkCallEnd { brew_uuid: 7 }]);
}

#[test]
fn network_group_call_floor_control() {
    let mut cc = CcBsSubentity::new(brew_config());
    let mut q = Vec::new();
    cc.handle_subscriber_update(&mut q, update(100, vec![1000], SubscriberAction::Affiliate));
    cc.rx_call_control(&mut q, CallControl::NetworkCallStart { brew_uuid: 7, source_issi: 2000, dest_gssi: 1000, priority: 0 });
    assert_eq!(q.len(), 4);
    let circuit = match q[0] {
        CcAction::CircuitOpen { circuit } => circuit,
        other => panic!("unexpected {:?}", other),
    };
    assert_eq!((circuit.ts, circuit.call_id, circuit.usage), (2, 4, 4));
    assert_eq!(
        q[1],
        CcAction::DSetup { call_id: 4, to: group(1000), calling_issi: 2000, usage: 4, ts: 2, call_timeout: CallTimeout::T2m }
    );
    assert_eq!(q[2], CcAction::DConnect { call_id: 4, to: group(1000), call_timeout: CallTimeout::T2m });
    assert_eq!(q[3], CcAction::NetworkCallReady { brew_uuid: 7, call_id: 4, ts: 2, usage: 4 });

    // A local MS asks for the floor while the network speaks: queued.
    q.clear();
    cc.fsm_on_u_tx_demand(&mut q, ms(100), 4);
    assert_eq!(
        q,
        vec![CcAction::DTxGranted {
            call_id: 4,
            to: ms(100),
            ts: 2,
            grant: TransmissionGrant::RequestQueued,
            transmitting_issi: Some(2000),
        }]
    );

    // The network speaker stops: hang time.
    q.clear();
    cc.rx_call_control(&mut q, CallControl::NetworkCallEnd { brew_uuid: 7 });
    assert_eq!(
        q,
        vec![
            CcAction::DTxCeasedGroup { call_id: 4, to: group(1000), ts: 2 },
            CcAction::FloorReleased { dest: ControlDest::Umac, call_id: 4, ts: 2 },
        ]
    );

    // Now the local MS gets the floor at once.
    q.clear();
    cc.fsm_on_u_tx_demand(&mut q, ms(100), 4);
    assert_eq!(
        q,
        vec![
            CcAction::DTxGranted { call_id: 4, to: ms(100), ts: 2, grant: TransmissionGrant::Granted, transmitting_issi: Some(100) },
            CcAction::DTxGrantedGroup { call_id: 4, transmitting_issi: 100, to: group(1000), ts: 2 },
            CcAction::FloorGranted { dest: ControlDest::Umac, call_id: 4, source_issi: 100, dest_gssi: 1000, ts: 2 },
            CcAction::FloorGranted { dest: ControlDest::Brew, call_id: 4, source_issi: 100, dest_gssi: 1000, ts: 2 },
        ]
    );

    // Only the speaker may release the floor.
    q.clear();
    cc.fsm_on_u_tx_ceased(&mut q, ms(101), 4);
    assert!(q.is_empty());
    cc.fsm_on_u_tx_ceased(&mut q, ms(100), 4);
    assert_eq!(
        q,
        vec![
            CcAction::DTxCeasedGroup { call_id: 4, to: group(1000), ts: 2 },
            CcAction::FloorReleased { dest: ControlDest::Umac, call_id: 4, ts: 2 },
            CcAction::FloorReleased { dest: ControlDest::Brew, call_id: 4, ts: 2 },
        ]
    );

    // The last listener leaves: the call is released and Brew told.
    q.clear();
    cc.handle_subscriber_update(&mut q, update(100, vec![], SubscriberAction::Deregister));
    assert!(q.contains(&CcAction::NetworkCallEnd { brew_uuid: 7 }));
    assert!(q.contains(&CcAction::DRelease {
        call_id: 4,
        to: group(1000),
        cause: DisconnectCause::SwmiRequestedDisconnection,
        ts: None,
    }));
    assert!(q.contains(&CcAction::CallEnded { dest: ControlDest::Umac, call_id: 4, ts: 2 }));
    // Nothing left to release afterwards.
    q.clear();
    cc.fsm_on_u_tx_demand(&mut q, ms(100), 4);
    assert!(q.is_empty());
}

#[test]
fn local_speaker_keeps_floor_against_priority_zero_network_call() {
    let mut cc = CcBsSubentity::new(brew_config());
    let mut q = Vec::new();
    cc.handle_subscriber_update(&mut q, update(100, vec![1000], SubscriberAction::Affiliate));
    cc.rx_call_control(&mut q, CallControl::NetworkCallStart { brew_uuid: 7, source_issi: 2000, dest_gssi: 1000, priority: 0 });
    // A new network speaker on the same group takes the floor.
    q.clear();
    cc.rx_call_control(&mut q, CallControl::NetworkCallStart { brew_uuid: 8, source_issi: 2001, dest_gssi: 1000, priority: 0 });
    assert_eq!(
        q,
        vec![
            CcAction::DTxGrantedGroup { call_id: 4, transmitting_issi: 2001, to: group(1000), ts: 2 },
            CcAction::FloorGranted { dest: ControlDest::Umac, call_id: 4, source_issi: 2001, dest_gssi: 1000, ts: 2 },
            CcAction::NetworkCallReady { brew_uuid: 8, call_id: 4, ts: 2, usage: 4 },
        ]
    );
}

#[test]
fn kick_ms_forgets_the_subscriber() {
    let mut cc = CcBsSubentity::new(brew_config());
    let mut q = Vec::new();
    assert!(!cc.kick_ms(&mut q, 100));
    assert!(q.is_empty());
    cc.handle_subscriber_update(&mut q, update(100, vec![1000], SubscriberAction::Affiliate));
    assert!(cc.kick_ms(&mut q, 100));
    assert_eq!(q.last(), Some(&CcAction::DeregisterSubscriber { issi: 100 }));
    assert!(!cc.has_listener(1000));
    assert!(cc.subscriber_issis().is_empty());
}

fn p2p_call(state: IndividualCallState) -> IndividualCall {
    IndividualCall {
        calling_addr: ms(100),
        called_addr: ms(101),
        calling_handle: 1,
        calling_link_id: 2,
        calling_endpoint_id: 3,
        called_handle: None,
        called_link_id: None,
        called_endpoint_id: None,
        calling_carrier_num: 0,
        calling_ts: 2,
        called_carrier_num: 0,
        called_ts: 3,
        calling_usage: 4,
        called_usage: 5,
        simplex_duplex: false,
        priority: 0,
        state,
        setup_timer_started: None,
        setup_timeout: None,
        active_timer_started: None,
        call_timeout: CallTimeout::T5m,
        called_over_brew: false,
        calling_over_brew: false,
        brew_uuid: None,
        connect_request_sent: false,
        floor_holder: None,
        hook_method: false,
        service: BasicService {
            circuit_mode: CircuitModeType::TchS,
            encryption: false,
            comm_type: CommunicationType::P2p,
            speech_service: Some(0),
        },
        network_params: None,
    }
}

#[test]
fn individual_call_lifecycle() {
    let mut cc = CcBsSubentity::new(brew_config());
    let mut q = Vec::new();
    assert_eq!(
        cc.fsm_individual_create_setup_call(9, p2p_call(IndividualCallState::Active)),
        Err(IndividualTransitionError::InvalidTransition {
            call_id: 9,
            state: IndividualCallState::Active,
            event: tetra_entities::cmce::cc_bs::subentity::IndividualEvent::CreateSetup,
        })
    );
    assert_eq!(cc.fsm_individual_create_setup_call(9, p2p_call(IndividualCallState::CallSetupPending)), Ok(()));
    assert_eq!(
        cc.fsm_individual_create_setup_call(9, p2p_call(IndividualCallState::CallSetupPending)),
        Err(IndividualTransitionError::DuplicateCall(9))
    );
    assert_eq!(cc.fsm_individual_bind_called_context(9, 11, 12, 13), Ok(()));
    assert_eq!(cc.fsm_individual_mark_connect_request_sent(9), Err(IndividualTransitionError::NotBrewOriginated(9)));
    // Alert: D-ALERT to the caller over its link.
    assert_eq!(cc.fsm_individual_on_alert(&mut q, 9, None, CallTimeoutSetupPhase::T60s), Ok(()));
    assert_eq!(q.len(), 1);
    assert!(matches!(q[0], CcAction::DAlert { call_id: 9, handle: 1, link_id: 2, endpoint_id: 3, .. }));
    // While still setting up, a floor demand does nothing.
    q.clear();
    cc.fsm_on_u_tx_demand(&mut q, ms(100), 9);
    assert!(q.is_empty());
    assert_eq!(cc.fsm_individual_transition_to_active(9), Ok(()));
    assert_eq!(
        cc.fsm_individual_transition_to_active(9),
        Err(IndividualTransitionError::InvalidTransition {
            call_id: 9,
            state: IndividualCallState::Active,
            event: tetra_entities::cmce::cc_bs::subentity::IndividualEvent::Connect,
        })
    );
    cc.fsm_on_u_tx_demand(&mut q, ms(101), 9);
    assert_eq!(
        q,
        vec![
            CcAction::DTxGrantedIndividual {
                call_id: 9,
                to: ms(101),
                ts: 3,
                usage: 5,
                assign: UlDlAssignment::Ul,
                grant: TransmissionGrant::Granted,
                transmitting_issi: 101,
            },
            CcAction::DTxGrantedIndividual {
                call_id: 9,
                to: ms(100),
                ts: 2,
                usage: 4,
                assign: UlDlAssignment::Dl,
                grant: TransmissionGrant::GrantedToOtherUser,
                transmitting_issi: 101,
            },
        ]
    );
    q.clear();
    cc.fsm_on_u_tx_ceased(&mut q, ms(101), 9);
    assert_eq!(q.len(), 4);
    assert_eq!(q[0], CcAction::DTxCeasedIndividual { call_id: 9, to: ms(101), ts: 3, usage: 5, assign: UlDlAssignment::Dl });
    assert_eq!(q[3], CcAction::FloorGranted { dest: ControlDest::Umac, call_id: 9, source_issi: 100, dest_gssi: 101, ts: 2 });
    // Release of the active call: two rounds of D-RELEASE on the traffic channels.
    q.clear();
    cc.release_individual_call(&mut q, 9, DisconnectCause::UserRequestedDisconnection);
    let releases = q.iter().filter(|a| matches!(a, CcAction::DRelease { call_id: 9, .. })).count();
    assert_eq!(releases, 4);
    assert_eq!(
        q[0],
        CcAction::DRelease { call_id: 9, to: ms(100), cause: DisconnectCause::UserRequestedDisconnection, ts: Some(2) }
    );
    assert!(q.contains(&CcAction::CallEnded { dest: ControlDest::Umac, call_id: 9, ts: 2 }));
    assert!(q.contains(&CcAction::CallEnded { dest: ControlDest::Umac, call_id: 9, ts: 3 }));
    // Gone: a second release does nothing.
    q.clear();
    cc.release_individual_call(&mut q, 9, DisconnectCause::UserRequestedDisconnection);
    assert!(q.is_empty());
}

#[test]
fn brew_release_of_individual_call_maps_cause() {
    let mut cc = CcBsSubentity::new(brew_config());
    let mut q = Vec::new();
    let mut call = p2p_call(IndividualCallState::IncomingSetupPending);
    call.calling_over_brew = true;
    call.brew_uuid = Some(42);
    cc.fsm_individual_create_setup_call(5, call).unwrap();
    cc.rx_call_control(&mut q, CallControl::NetworkCircuitAlert { brew_uuid: 42 });
    assert_eq!(q, vec![CcAction::NetworkCircuitAlert { brew_uuid: 42 }]);
    assert_eq!(cc.fsm_individual_mark_connect_request_sent(5), Ok(()));
    assert_eq!(cc.fsm_individual_mark_connect_request_sent(5), Err(IndividualTransitionError::ConnectRequestAlreadySent(5)));
    q.clear();
    // Unknown raw cause 200 reads as a SwMI disconnection: Brew is not told back.
    cc.rx_call_control(&mut q, CallControl::NetworkCircuitRelease { brew_uuid: 42, cause: 200 });
    assert!(q.contains(&CcAction::DRelease {
        call_id: 5,
        to: ms(101),
        cause: DisconnectCause::SwmiRequestedDisconnection,
        ts: None,
    }));
    assert!(!q.iter().any(|a| matches!(a, CcAction::NetworkCircuitRelease { .. })));
    // The calling leg lives behind Brew and gets no D-RELEASE from here.
    assert!(!q.iter().any(|a| matches!(a, CcAction::DRelease { to, .. } if *to == ms(100))));
}

#[test]
fn uplink_pdus_are_routed_by_type() {
    let cc = CcBsSubentity::new(brew_config());
    let ind = |bits: Vec<bool>| LcmcUnitdataInd { sdu: bits, received_address: ms(100), handle: 0, link_id: 0, endpoint_id: 0 };
    // 01010 = U-TX DEMAND
    assert_eq!(
        cc.route_xx_deliver(&ind(vec![false, true, false, true, false, true])),
        XxDelivery::Handler(CmcePduTypeUl::UTxDemand)
    );
    // 00111 = U-SETUP
    assert_eq!(cc.route_xx_deliver(&ind(vec![false, false, true, true, true])), XxDelivery::Handler(CmcePduTypeUl::USetup));
    // 01000 = U-STATUS, not implemented here
    assert_eq!(
        cc.route_xx_deliver(&ind(vec![false, true, false, false, false])),
        XxDelivery::Unimplemented(CmcePduTypeUl::UStatus)
    );
    // 00001 is reserved
    assert_eq!(cc.route_xx_deliver(&ind(vec![false, false, false, false, true])), XxDelivery::InvalidPduType(1));
    assert_eq!(cc.route_xx_deliver(&ind(vec![true, false, true])), XxDelivery::InsufficientBits);
}

#[test]
fn call_timeout_and_cause_tables() {
    let mut cfg = brew_config();
    cfg.call_timeout_secs = 0;
    assert_eq!(CcBsSubentity::new(cfg).config_call_timeout(), CallTimeout::Infinite);
    let mut cfg = brew_config();
    cfg.call_timeout_secs = 45;
    assert_eq!(CcBsSubentity::new(cfg).config_call_timeout(), CallTimeout::T45s);
    let mut cfg = brew_config();
    cfg.call_timeout_secs = 5000;
    assert_eq!(CcBsSubentity::new(cfg).config_call_timeout(), CallTimeout::T30m);
    assert_eq!(CcBsSubentity::new(brew_config()).config_call_timeout(), CallTimeout::T2m);
    assert_eq!(disconnect_cause_from_raw(14), Some(DisconnectCause::SwmiRequestedDisconnection));
    assert_eq!(disconnect_cause_from_raw(1), Some(DisconnectCause::UserRequestedDisconnection));
    assert_eq!(disconnect_cause_from_raw(23), None);
}
