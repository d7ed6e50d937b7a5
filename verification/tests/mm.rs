use std::time::Duration;
use tetra_entities::mm::client_state::{ClientEvent, ClientMgrErr, MmClientMgr, MmClientState};
use tetra_entities::mm::energy_saving::{ee_cycle_frames, grant_energy_saving, EnergySavingMode};
use tetra_entities::mm::recovery_cache::{CacheFile, RecoveryCache, TerminalRecord, CACHE_VERSION};

#[test]
fn grant_energy_saving_produces_spec_valid_start_point() {
    for mode in [EnergySavingMode::Eg1, EnergySavingMode::Eg2, EnergySavingMode::Eg3, EnergySavingMode::Eg5, EnergySavingMode::Eg7] {
        for issi in [1u32, 2, 17, 18, 19, 2260596, 2269000, 9_999_999] {
            let esi = grant_energy_saving(issi, mode);
            let frame = esi.frame_number.expect("active EE carries a frame number");
            let mframe = esi.multiframe_number.expect("active EE carries a multiframe number");
            assert!((1..=18).contains(&frame), "FN {frame} out of 1..=18 (issi {issi}, {mode:?})");
            assert!((1..=60).contains(&mframe), "MN {mframe} out of 1..=60 (issi {issi}, {mode:?})");
            let cycle = ee_cycle_frames(esi.energy_saving_mode).expect("active EE has a cycle") as u32;
            // The start point is itself a wake frame: its frame index within the hyperframe
            // falls on the MS's phase of the cycle.
            let index = (mframe as u32 - 1) * 18 + (frame as u32 - 1);
            assert_eq!(index % cycle, issi % cycle, "start point ({frame},{mframe}) must be open for cycle {cycle} (issi {issi}, {mode:?})");
        }
    }
}

#[test]
fn grant_energy_saving_stay_alive_and_eg4_7_capping() {
    // StayAlive → no monitoring window.
    let esi = grant_energy_saving(42, EnergySavingMode::StayAlive);
    assert_eq!(esi.energy_saving_mode, EnergySavingMode::StayAlive);
    assert!(esi.frame_number.is_none() && esi.multiframe_number.is_none());
    // Eg4..Eg7 capped to Eg3 to bound call-setup latency.
    for mode in [EnergySavingMode::Eg4, EnergySavingMode::Eg5, EnergySavingMode::Eg6, EnergySavingMode::Eg7] {
        assert_eq!(grant_energy_saving(42, mode).energy_saving_mode, EnergySavingMode::Eg3);
    }
    // Eg1..Eg3 granted as requested.
    for mode in [EnergySavingMode::Eg1, EnergySavingMode::Eg2, EnergySavingMode::Eg3] {
        assert_eq!(grant_energy_saving(42, mode).energy_saving_mode, mode);
    }
}

#[test]
fn energy_saving_window_spreads_by_issi() {
    assert_eq!(ee_cycle_frames(EnergySavingMode::Eg3), Some(6));
    assert_eq!(ee_cycle_frames(EnergySavingMode::Eg7), Some(72));
    assert_eq!(ee_cycle_frames(EnergySavingMode::StayAlive), None);
    // Eg3: cycle 6, phase 17 % 6 = 5 → frame 6, multiframe 1.
    let esi = grant_energy_saving(17, EnergySavingMode::Eg3);
    assert_eq!((esi.frame_number, esi.multiframe_number), (Some(6), Some(1)));
    let esi = grant_energy_saving(19, EnergySavingMode::Eg1);
    assert_eq!((esi.frame_number, esi.multiframe_number), (Some(2), Some(1)));
}

#[test]
fn client_registry_lifecycle_and_telemetry() {
    let mut mgr = MmClientMgr::new(true);
    assert_eq!(mgr.set_client_state(5, MmClientState::Attached), Err(ClientMgrErr::ClientNotFound { issi: 5 }));
    assert_eq!(mgr.try_register_client(5, true, 1_000), Ok(true));
    assert!(mgr.client_is_known(5));
    let c = mgr.get_client_by_issi(5).unwrap();
    assert_eq!(c.state, MmClientState::Attached);
    assert_eq!(c.last_registration_ms, 1_000);
    assert_eq!(mgr.client_group_attach(5, 91, true), Ok(true));
    assert_eq!(mgr.client_group_attach(5, 91, true), Ok(false));
    assert_eq!(mgr.client_group_attach(5, 92, true), Ok(true));
    assert_eq!(mgr.client_group_attach(5, 92, false), Ok(true));
    assert_eq!(mgr.client_group_attach(6, 92, true), Err(ClientMgrErr::ClientNotFound { issi: 6 }));
    mgr.set_client_handle(5, 77);
    assert_eq!(mgr.all_clients_with_handle(), vec![(5, 77)]);
    assert_eq!(mgr.client_detach_all_groups(5), Ok(true));
    assert!(mgr.get_client_by_issi(5).unwrap().groups.is_empty());
    let events = mgr.take_events();
    assert_eq!(events.len(), 5);
    assert_eq!(events[0], ClientEvent::MsRegistration { issi: 5 });
    assert_eq!(events[1], ClientEvent::MsGroupAttach { issi: 5, gssis: vec![91] });
    assert_eq!(events[4], ClientEvent::MsGroupDetach { issi: 5, gssis: vec![91] });
    assert!(mgr.take_events().is_empty());
    assert!(mgr.remove_client(5).is_some());
    assert!(mgr.remove_client(5).is_none());
    assert_eq!(mgr.take_events(), vec![ClientEvent::MsDeregistration { issi: 5 }]);
}

#[test]
fn periodic_registration_expiry() {
    let mut mgr = MmClientMgr::new(false);
    mgr.try_register_client(1, true, 0).unwrap();
    mgr.try_register_client(2, true, 50_000).unwrap();
    assert!(mgr.collect_expired_registrations(100_000, 0).is_empty());
    assert_eq!(mgr.collect_expired_registrations(70_001, 70), vec![1]);
    mgr.reset_registration_timer(1, 70_001);
    assert!(mgr.collect_expired_registrations(100_000, 70).is_empty());
    let mut both = mgr.collect_expired_registrations(200_000, 70);
    both.sort();
    assert_eq!(both, vec![1, 2]);
    // Without telemetry no events are kept.
    assert!(mgr.take_events().is_empty());
}

#[test]
fn recovery_cache_gate() {
    let mut cache = RecoveryCache::new("/tmp/recovery.json".to_string(), Duration::from_secs(0));
    assert_eq!(cache.path(), "/tmp/recovery.json");
    assert!(!cache.is_dirty());
    assert!(cache.maybe_flush(|| panic!("snapshot must not be called when clean")).is_none());
    cache.mark_dirty();
    assert!(cache.flush_due(0));
    let rec = TerminalRecord { issi: 2260571, groups: vec![91, 92], energy_saving_mode: 0 };
    let file = cache.maybe_flush(|| vec![rec.clone()]).expect("due");
    assert_eq!(file.version, CACHE_VERSION);
    assert_eq!(file.terminals, vec![rec.clone()]);
    cache.flush_finished(false);
    assert!(cache.is_dirty());
    cache.flush_finished(true);
    assert!(!cache.is_dirty());
    assert_eq!(RecoveryCache::accept_loaded(None), vec![]);
    assert_eq!(
        RecoveryCache::accept_loaded(Some(CacheFile { version: 999, terminals: vec![rec.clone()] })),
        vec![]
    );
    assert_eq!(RecoveryCache::accept_loaded(Some(CacheFile { version: CACHE_VERSION, terminals: vec![rec.clone()] })), vec![rec]);
    let slow = RecoveryCache::new("x".to_string(), Duration::from_secs(3600));
    assert!(!slow.flush_due(1_000));
}
