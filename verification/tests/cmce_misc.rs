use tetra_entities::backlight::{check_requested_brightness, clamp_to_device, status_from_discovery, BacklightError, DiscoveredPanel, MAX_VALUE};
use tetra_entities::cmce::cc_bs::call::{
    call_timeout_to_timeslots, is_emergency_priority, is_preemptive_priority, seconds_to_timeslots, setup_timeout_to_timeslots,
    ActiveCall, CallTimeout, CallTimeoutSetupPhase, GroupCallState, TxDemandQueueResult,
};
use tetra_entities::cmce::cc_bs::echo::{EchoSession, DELAY_FRAMES};
use tetra_entities::cmce::components::pc_bs::{ControlMessageKind, ControlRoute, LcmcRoute, PcBs};
use tetra_entities::cmce::pdu_type::CmcePduTypeUl;
use tetra_entities::tdma::{SsiType, TdmaTime, TetraAddress};

#[test]
fn echo_replays_after_the_delay() {
    let mut s = EchoSession::new(2, 9);
    for i in 0..DELAY_FRAMES {
        assert!(s.push_ul_frame(vec![i as u8]).is_none());
    }
    assert_eq!(s.push_ul_frame(vec![100]), Some(vec![0]));
    assert_eq!(s.push_ul_frame(vec![101]), Some(vec![1]));
    assert_eq!((s.ts, s.call_id), (2, 9));
}

#[test]
fn pc_routes_by_pdu_type_and_control_kind() {
    let pc = PcBs::new();
    assert_eq!(pc.route_lcmc_unitdata_ind(Some(7)), Some(LcmcRoute::CcRd));
    assert_eq!(pc.route_lcmc_unitdata_ind(Some(16)), Some(LcmcRoute::SsRe));
    assert_eq!(pc.route_lcmc_unitdata_ind(Some(15)), Some(LcmcRoute::SdsRf));
    assert_eq!(pc.route_lcmc_unitdata_ind(Some(8)), Some(LcmcRoute::SdsStatus));
    assert_eq!(pc.route_lcmc_unitdata_ind(Some(31)), Some(LcmcRoute::Unsupported(CmcePduTypeUl::CmceFunctionNotSupported)));
    assert_eq!(pc.route_lcmc_unitdata_ind(Some(3)), None);
    assert_eq!(pc.route_lcmc_unitdata_ind(None), None);
    assert_eq!(pc.route_control(ControlMessageKind::CallControl), ControlRoute::CcRa);
    assert_eq!(pc.route_control(ControlMessageKind::SubscriberUpdate), ControlRoute::CcSubscriberUpdate);
    assert_eq!(pc.route_control(ControlMessageKind::Other), ControlRoute::Unsupported);
}

#[test]
fn priorities_and_timers() {
    assert!(!is_preemptive_priority(11));
    assert!(is_preemptive_priority(12));
    assert!(!is_emergency_priority(14));
    assert!(is_emergency_priority(15));
    // One timeslot lasts 170/12 ms.
    assert_eq!(seconds_to_timeslots(0), 0);
    assert_eq!(seconds_to_timeslots(17), 1200);
    assert_eq!(seconds_to_timeslots(i32::MAX), i32::MAX);
    assert_eq!(setup_timeout_to_timeslots(CallTimeoutSetupPhase::T1s), Some(70));
    assert_eq!(call_timeout_to_timeslots(CallTimeout::T30s), Some(2117));
    assert_eq!(call_timeout_to_timeslots(CallTimeout::Infinite), None);
}

#[test]
fn group_call_floor_queue() {
    let speaker = TetraAddress { ssi: 100, ssi_type: SsiType::Issi };
    let other = TetraAddress { ssi: 101, ssi_type: SsiType::Issi };
    let third = TetraAddress { ssi: 102, ssi_type: SsiType::Issi };
    let t0 = TdmaTime { h: 0, m: 1, f: 1, t: 1 };
    let mut call = ActiveCall::new_local(speaker, 1000, 100, 2, 4, t0, CallTimeout::T30s, 0);
    assert_eq!(call.state(), GroupCallState::Transmitting);
    assert_eq!(call.queue_tx_demand(speaker), TxDemandQueueResult::FromCurrentSpeaker);
    assert_eq!(call.queue_tx_demand(other), TxDemandQueueResult::Queued);
    assert_eq!(call.queue_tx_demand(other), TxDemandQueueResult::AlreadyQueuedBySameUser);
    assert_eq!(call.queue_tx_demand(third), TxDemandQueueResult::QueueBusy);
    assert_eq!(call.take_queued_tx_demand(), Some(other));
    let later = TdmaTime { h: 0, m: 2, f: 1, t: 1 };
    call.enter_hangtime(later);
    assert_eq!(call.state(), GroupCallState::NoActiveSpeaker { since: later });
    // 30 s is 2117 timeslots; one multiframe later is only 72.
    assert!(!call.call_timeout_expired(later));
    assert!(call.call_timeout_expired(TdmaTime { h: 1, m: 1, f: 1, t: 1 }));
}

#[test]
fn rejects_out_of_range_before_touching_hardware() {
    // 256 is rejected purely on the value, regardless of host hardware.
    assert!(matches!(check_requested_brightness(MAX_VALUE + 1), Err(BacklightError::OutOfRange)));
}

#[test]
fn status_is_graceful_without_a_panel() {
    // With no panel discovered the status reports present:false rather than erroring.
    let st = status_from_discovery(None);
    assert!(!st.present);
    assert!(st.device.is_none());
    assert!(st.brightness.is_none());
    // 128 is a valid value; on a panel-less host it is the write at the I/O edge that fails.
    assert!(check_requested_brightness(128).is_ok());
}

#[test]
fn backlight_request_checks() {
    assert_eq!(clamp_to_device(200, Some(100)), 100);
    assert_eq!(clamp_to_device(50, Some(100)), 50);
    assert_eq!(clamp_to_device(200, None), 200);
    let st = status_from_discovery(None);
    assert!(!st.present && st.device.is_none() && st.brightness.is_none());
    let st = status_from_discovery(Some(DiscoveredPanel {
        device: Some("panel".to_string()),
        brightness: Some(10),
        max_brightness: Some(255),
    }));
    assert!(st.present);
    assert_eq!(st.max_brightness, Some(255));
}
