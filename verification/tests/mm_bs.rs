use tetra_entities::cmce::cc_bs::subentity::SubscriberAction;
use tetra_entities::mm::energy_saving::{energy_saving_mode_from_raw, grant_energy_saving, EnergySavingMode};
use tetra_entities::mm::mm_bs::{
    GroupIdentityLocationDemand, GroupIdentityUplink, LocationUpdateType, MmAction, MmBs, MmConfig, MsClass, RecoveryConfig,
    StatusUplink,
    UAttachDetachGroupIdentity, ULocationUpdateDemand, UpdateTarget,
};
use tetra_entities::mm::recovery_cache::{RecoveryCache, TerminalRecord};
use tetra_entities::net_brew::brew_routable::RoutingConfig;

fn recovery_config(max_cached: u32, allowlist: Vec<u32>) -> RecoveryConfig {
    RecoveryConfig {
        max_cached_issis: max_cached,
        issi_allowlist: allowlist,
        replay_per_frame: 1,
        max_replay_attempts: 2,
        reactive_enabled: true,
        reactive_cooldown_secs: 2,
    }
}

fn bs_with(whitelist: Vec<u32>, periodic: u32, recovery: RecoveryConfig) -> MmBs {
    MmBs::new(
        MmConfig {
            routing: RoutingConfig { brew: None, local_ssi_ranges: vec![] },
            issi_whitelist: whitelist,
            periodic_registration_secs: periodic,
            recovery,
        },
        false,
    )
}

fn bs(whitelist: Vec<u32>, periodic: u32) -> MmBs {
    bs_with(whitelist, periodic, recovery_config(100, vec![]))
}

fn demand(t: LocationUpdateType) -> ULocationUpdateDemand {
    ULocationUpdateDemand {
        location_update_type: t,
        request_to_append_la: false,
        cipher_control: false,
        ciphering_parameters_present: false,
        class_of_ms: None,
        energy_saving_mode: None,
        group_identity_location_demand: None,
        address_extension: None,
    }
}

fn attach(g: u32) -> GroupIdentityUplink {
    GroupIdentityUplink { class_of_usage: Some(4), detachment_uplink: None, gssi: Some(g), address_extension: None, vgssi: None }
}

fn detach(g: u32) -> GroupIdentityUplink {
    GroupIdentityUplink { class_of_usage: None, detachment_uplink: Some(0), gssi: Some(g), address_extension: None, vgssi: None }
}

fn is_update(a: &MmAction, issi_w: u32, action_w: SubscriberAction, groups_w: &[u32]) -> bool {
    match a {
        MmAction::SubscriberUpdate { target: UpdateTarget::Cmce, issi, groups, action } => {
            let mut g = groups.clone();
            g.sort();
            *issi == issi_w && *action == action_w && g == groups_w
        },
        _ => false,
    }
}

#[test]
fn new_ms_registers_and_is_asked_for_groups() {
    let mut mm = bs(vec![], 0);
    let mut q = Vec::new();
    mm.rx_u_location_update_demand(&mut q, 1000, 2001, 7, &demand(LocationUpdateType::RoamingLocationUpdating));
    assert_eq!(q.len(), 3);
    assert!(is_update(&q[0], 2001, SubscriberAction::Register, &[]));
    match &q[1] {
        MmAction::LocationUpdateAccept { issi, handle, accept_type, energy_saving, scch_info, group_accept } => {
            assert_eq!(*issi, 2001);
            assert_eq!(*handle, 7);
            assert_eq!(*accept_type, LocationUpdateType::RoamingLocationUpdating);
            assert!(energy_saving.is_none());
            assert!(scch_info.is_none());
            assert!(group_accept.is_none());
        },
        _ => panic!("expected an accept"),
    }
    assert!(matches!(q[2], MmAction::LocationUpdateCommand { issi: 2001, handle: 7 }));
}

#[test]
fn itsi_attach_gets_no_command_and_periodic_accept() {
    let mut mm = bs(vec![], 3600);
    let mut q = Vec::new();
    let mut d = demand(LocationUpdateType::ItsiAttach);
    d.energy_saving_mode = Some(EnergySavingMode::Eg7);
    d.class_of_ms = Some(MsClass { raw: 0x123456, clch_needed: true, common_scch: false });
    mm.rx_u_location_update_demand(&mut q, 1000, 2002, 3, &d);
    // Registration of the new MS, then the accept; no group report is asked of an ITSI attach.
    assert_eq!(q.len(), 2);
    assert!(is_update(&q[0], 2002, SubscriberAction::Register, &[]));
    match &q[1] {
        MmAction::LocationUpdateAccept { accept_type, energy_saving, scch_info, .. } => {
            assert_eq!(*accept_type, LocationUpdateType::PeriodicLocationUpdating);
            assert_eq!(energy_saving.unwrap().energy_saving_mode, EnergySavingMode::Eg3);
            assert_eq!(*scch_info, Some(1));
        },
        _ => panic!("expected an accept"),
    }
}

#[test]
fn whitelist_rejects_unknown_issi() {
    let mut mm = bs(vec![100, 200], 0);
    let mut q = Vec::new();
    mm.rx_u_location_update_demand(&mut q, 0, 300, 1, &demand(LocationUpdateType::RoamingLocationUpdating));
    assert_eq!(q.len(), 1);
    assert!(matches!(q[0], MmAction::LocationUpdateReject { issi: 300, handle: 1, .. }));
    q.clear();
    mm.rx_u_location_update_demand(&mut q, 0, 200, 1, &demand(LocationUpdateType::RoamingLocationUpdating));
    assert!(matches!(q[1], MmAction::LocationUpdateAccept { issi: 200, .. }));
}

#[test]
fn migrating_ms_is_rejected_and_forgotten() {
    let mut mm = bs(vec![], 0);
    let mut q = Vec::new();
    mm.rx_u_location_update_demand(&mut q, 0, 400, 1, &demand(LocationUpdateType::RoamingLocationUpdating));
    q.clear();
    mm.rx_u_location_update_demand(&mut q, 10, 400, 2, &demand(LocationUpdateType::MigratingLocationUpdating));
    assert_eq!(q.len(), 2);
    assert!(is_update(&q[0], 400, SubscriberAction::Deregister, &[]));
    assert!(matches!(
        q[1],
        MmAction::LocationUpdateReject { issi: 400, handle: 2, update_type: LocationUpdateType::MigratingLocationUpdating, .. }
    ));
}

#[test]
fn unsupported_update_is_ignored() {
    let mut mm = bs(vec![], 0);
    let mut q = Vec::new();
    let mut d = demand(LocationUpdateType::RoamingLocationUpdating);
    d.cipher_control = true;
    mm.rx_u_location_update_demand(&mut q, 0, 500, 1, &d);
    assert!(q.is_empty());
    mm.rx_u_location_update_demand(&mut q, 0, 500, 1, &demand(LocationUpdateType::DisabledMsUpdating));
    assert!(q.is_empty());
}

#[test]
fn group_report_in_location_update_is_answered() {
    let mut mm = bs(vec![], 0);
    let mut q = Vec::new();
    let mut d = demand(LocationUpdateType::RoamingLocationUpdating);
    d.group_identity_location_demand =
        Some(GroupIdentityLocationDemand { attach_detach_mode: 0, group_identity_uplink: Some(vec![attach(91), attach(92)]) });
    mm.rx_u_location_update_demand(&mut q, 0, 600, 1, &d);
    assert_eq!(q.len(), 3);
    assert!(is_update(&q[0], 600, SubscriberAction::Register, &[]));
    assert!(is_update(&q[1], 600, SubscriberAction::Affiliate, &[91, 92]));
    match &q[2] {
        MmAction::LocationUpdateAccept { group_accept: Some(Some(answers)), .. } => {
            assert_eq!(answers.len(), 2);
            assert_eq!(answers[0].gssi, Some(91));
            assert_eq!(answers[0].attachment.unwrap().class_of_usage, 4);
            assert_eq!(answers[1].gssi, Some(92));
        },
        _ => panic!("expected an accept with group answers"),
    }
}

#[test]
fn roaming_after_two_minutes_reregisters_with_groups() {
    let mut mm = bs(vec![], 0);
    let mut q = Vec::new();
    let mut d = demand(LocationUpdateType::RoamingLocationUpdating);
    d.group_identity_location_demand =
        Some(GroupIdentityLocationDemand { attach_detach_mode: 0, group_identity_uplink: Some(vec![attach(91)]) });
    mm.rx_u_location_update_demand(&mut q, 0, 700, 1, &d);
    q.clear();
    mm.rx_u_location_update_demand(&mut q, 200_000, 700, 1, &demand(LocationUpdateType::RoamingLocationUpdating));
    // Clean-up: de-affiliate, de-register, register, affiliate; then the coverage return
    // affiliates the stored groups again; then the accept.
    assert_eq!(q.len(), 6);
    assert!(is_update(&q[0], 700, SubscriberAction::Deaffiliate, &[91]));
    assert!(is_update(&q[1], 700, SubscriberAction::Deregister, &[]));
    assert!(is_update(&q[2], 700, SubscriberAction::Register, &[]));
    assert!(is_update(&q[3], 700, SubscriberAction::Affiliate, &[91]));
    assert!(is_update(&q[4], 700, SubscriberAction::Affiliate, &[91]));
    assert!(matches!(q[5], MmAction::LocationUpdateAccept { issi: 700, .. }));
}

#[test]
fn roaming_within_two_minutes_releases_calls_only() {
    let mut mm = bs(vec![], 0);
    let mut q = Vec::new();
    mm.rx_u_location_update_demand(&mut q, 0, 710, 1, &demand(LocationUpdateType::RoamingLocationUpdating));
    q.clear();
    mm.rx_u_location_update_demand(&mut q, 60_000, 710, 1, &demand(LocationUpdateType::RoamingLocationUpdating));
    // Individual-call release: de-register and register in CMCE, no groups; then the accept.
    assert_eq!(q.len(), 3);
    assert!(is_update(&q[0], 710, SubscriberAction::Deregister, &[]));
    assert!(is_update(&q[1], 710, SubscriberAction::Register, &[]));
    assert!(matches!(q[2], MmAction::LocationUpdateAccept { issi: 710, .. }));
}

#[test]
fn itsi_detach_deregisters_known_ms() {
    let mut mm = bs(vec![], 0);
    let mut q = Vec::new();
    mm.rx_u_itsi_detach(&mut q, 800);
    assert!(q.is_empty());
    mm.rx_u_location_update_demand(&mut q, 0, 800, 1, &demand(LocationUpdateType::ItsiAttach));
    let grp = UAttachDetachGroupIdentity { attach_detach_mode: false, group_identity_uplink: Some(vec![attach(5)]) };
    mm.rx_u_attach_detach_group_identity(&mut q, 0, 800, 1, &grp);
    q.clear();
    mm.rx_u_itsi_detach(&mut q, 800);
    assert_eq!(q.len(), 2);
    assert!(is_update(&q[0], 800, SubscriberAction::Deaffiliate, &[5]));
    assert!(is_update(&q[1], 800, SubscriberAction::Deregister, &[]));
    q.clear();
    mm.rx_u_itsi_detach(&mut q, 800);
    assert!(q.is_empty());
}

#[test]
fn attach_detach_group_identity_changes_and_acknowledges() {
    let mut mm = bs(vec![], 0);
    let mut q = Vec::new();
    mm.rx_u_location_update_demand(&mut q, 0, 900, 1, &demand(LocationUpdateType::ItsiAttach));
    q.clear();
    let grp = UAttachDetachGroupIdentity { attach_detach_mode: false, group_identity_uplink: Some(vec![attach(1), attach(2)]) };
    mm.rx_u_attach_detach_group_identity(&mut q, 0, 900, 4, &grp);
    assert_eq!(q.len(), 2);
    assert!(is_update(&q[0], 900, SubscriberAction::Affiliate, &[1, 2]));
    match &q[1] {
        MmAction::AttachDetachAck { issi: 900, handle: 4, groups } => assert_eq!(groups.len(), 2),
        _ => panic!("expected an acknowledgement"),
    }
    q.clear();
    let grp = UAttachDetachGroupIdentity { attach_detach_mode: false, group_identity_uplink: Some(vec![detach(1)]) };
    mm.rx_u_attach_detach_group_identity(&mut q, 0, 900, 4, &grp);
    assert!(is_update(&q[0], 900, SubscriberAction::Deaffiliate, &[1]));
    match &q[1] {
        MmAction::AttachDetachAck { groups, .. } => {
            assert_eq!(groups.len(), 1);
            assert!(groups[0].attachment.is_none());
            assert_eq!(groups[0].detachment_uplink, Some(0));
        },
        _ => panic!("expected an acknowledgement"),
    }
    // Without requests: answered with the groups held.
    q.clear();
    let grp = UAttachDetachGroupIdentity { attach_detach_mode: false, group_identity_uplink: None };
    mm.rx_u_attach_detach_group_identity(&mut q, 0, 900, 4, &grp);
    assert_eq!(q.len(), 1);
    match &q[0] {
        MmAction::AttachDetachAckCurrent { gssis, .. } => assert_eq!(gssis, &vec![2u32]),
        _ => panic!("expected the current groups"),
    }
}

#[test]
fn attach_requests_are_clamped_to_twelve() {
    let mut mm = bs(vec![], 0);
    let mut q = Vec::new();
    mm.rx_u_location_update_demand(&mut q, 0, 950, 1, &demand(LocationUpdateType::ItsiAttach));
    q.clear();
    let reqs: Vec<GroupIdentityUplink> = (1..=15).map(attach).collect();
    let grp = UAttachDetachGroupIdentity { attach_detach_mode: false, group_identity_uplink: Some(reqs) };
    mm.rx_u_attach_detach_group_identity(&mut q, 0, 950, 1, &grp);
    match q.last().unwrap() {
        MmAction::AttachDetachAck { groups, .. } => assert_eq!(groups.len(), 12),
        _ => panic!("expected an acknowledgement"),
    }
}

#[test]
fn detach_all_mode_clears_groups_first() {
    let mut mm = bs(vec![], 0);
    let mut q = Vec::new();
    mm.rx_u_location_update_demand(&mut q, 0, 960, 1, &demand(LocationUpdateType::ItsiAttach));
    let grp = UAttachDetachGroupIdentity { attach_detach_mode: false, group_identity_uplink: Some(vec![attach(7), attach(8)]) };
    mm.rx_u_attach_detach_group_identity(&mut q, 0, 960, 1, &grp);
    q.clear();
    let grp = UAttachDetachGroupIdentity { attach_detach_mode: true, group_identity_uplink: Some(vec![attach(9)]) };
    mm.rx_u_attach_detach_group_identity(&mut q, 0, 960, 1, &grp);
    assert!(is_update(&q[0], 960, SubscriberAction::Deaffiliate, &[7, 8]));
    assert!(is_update(&q[1], 960, SubscriberAction::Affiliate, &[9]));
    assert!(matches!(q[2], MmAction::AttachDetachAck { .. }));
}

#[test]
fn energy_saving_change_request_is_granted_and_answered() {
    let mut mm = bs(vec![], 0);
    let mut q = Vec::new();
    mm.rx_u_location_update_demand(&mut q, 0, 1234, 1, &demand(LocationUpdateType::ItsiAttach));
    q.clear();
    // Eg7 asked for in the 3 leading bits of 3 bits: capped to Eg3.
    mm.rx_u_mm_status(&mut q, 1234, 5, StatusUplink::ChangeOfEnergySavingModeRequest, Some(0b111), Some(3));
    assert_eq!(q.len(), 1);
    match &q[0] {
        MmAction::EnergySavingResponse { issi, handle, energy_saving } => {
            assert_eq!((*issi, *handle), (1234, 5));
            assert_eq!(*energy_saving, grant_energy_saving(1234, EnergySavingMode::Eg7));
            assert_eq!(energy_saving.energy_saving_mode, EnergySavingMode::Eg3);
        },
        _ => panic!("expected the energy saving response"),
    }
    // Eg2 in the leading bits of 7 bits of information.
    q.clear();
    mm.rx_u_mm_status(&mut q, 1234, 5, StatusUplink::ChangeOfEnergySavingModeRequest, Some(0b010_1111), Some(7));
    match &q[0] {
        MmAction::EnergySavingResponse { energy_saving, .. } => assert_eq!(energy_saving.energy_saving_mode, EnergySavingMode::Eg2),
        _ => panic!("expected the energy saving response"),
    }
    // No information: StayAlive, no monitoring window.
    q.clear();
    mm.rx_u_mm_status(&mut q, 1234, 5, StatusUplink::ChangeOfEnergySavingModeRequest, None, None);
    match &q[0] {
        MmAction::EnergySavingResponse { energy_saving, .. } => {
            assert_eq!(energy_saving.energy_saving_mode, EnergySavingMode::StayAlive);
            assert!(energy_saving.frame_number.is_none());
        },
        _ => panic!("expected the energy saving response"),
    }
}

#[test]
fn energy_saving_response_and_unsupported_status() {
    let mut mm = bs(vec![], 0);
    let mut q = Vec::new();
    mm.rx_u_mm_status(&mut q, 1, 2, StatusUplink::ChangeOfEnergySavingModeResponse, Some(0b001), Some(3));
    assert!(q.is_empty());
    mm.rx_u_mm_status(&mut q, 1, 2, StatusUplink::Other(9), None, None);
    assert_eq!(q.len(), 1);
    assert!(matches!(q[0], MmAction::FunctionNotSupported { issi: 1, handle: 2, status_uplink: 9 }));
}

#[test]
fn energy_saving_mode_raw_values() {
    assert_eq!(energy_saving_mode_from_raw(0), Some(EnergySavingMode::StayAlive));
    assert_eq!(energy_saving_mode_from_raw(3), Some(EnergySavingMode::Eg3));
    assert_eq!(energy_saving_mode_from_raw(7), Some(EnergySavingMode::Eg7));
    assert_eq!(energy_saving_mode_from_raw(8), None);
}

fn record(issi: u32, groups: Vec<u32>, esm: u8) -> TerminalRecord {
    TerminalRecord { issi, groups, energy_saving_mode: esm }
}

fn cache() -> RecoveryCache {
    RecoveryCache::new(String::from("recovery.json"), std::time::Duration::from_secs(5))
}

fn commands(q: &[MmAction]) -> Vec<u32> {
    q.iter()
        .filter_map(|a| match a {
            MmAction::LocationUpdateCommand { issi, handle: 0 } => Some(*issi),
            _ => None,
        })
        .collect()
}

#[test]
fn recovery_replays_round_robin_and_gives_up() {
    let mut mm = bs_with(vec![10, 11, 12], 0, recovery_config(2, vec![]));
    mm.init_recovery(cache(), vec![record(10, vec![91, 92], 3), record(11, vec![], 0), record(12, vec![], 0)], 0);
    let mut q = Vec::new();
    mm.drive_recovery_replay(&mut q, 1);
    assert_eq!(commands(&q), vec![10]);
    // At most one batch per frame.
    mm.drive_recovery_replay(&mut q, 1);
    assert_eq!(commands(&q), vec![10]);
    mm.drive_recovery_replay(&mut q, 2);
    mm.drive_recovery_replay(&mut q, 3);
    mm.drive_recovery_replay(&mut q, 4);
    assert_eq!(commands(&q), vec![10, 11, 10, 11]);
    // Both have had their two commands: the next batches give up on them, one per frame.
    mm.drive_recovery_replay(&mut q, 5);
    mm.drive_recovery_replay(&mut q, 6);
    mm.drive_recovery_replay(&mut q, 7);
    assert_eq!(q.len(), 4);
}

#[test]
fn recovered_terminal_reregisters_with_its_groups() {
    let mut mm = bs_with(vec![], 0, recovery_config(10, vec![10]));
    mm.init_recovery(cache(), vec![record(10, vec![91, 92], 3), record(11, vec![5], 0)], 0);
    let mut q = Vec::new();
    // 11 is not on the recovery allowlist: only 10 is replayed.
    mm.drive_recovery_replay(&mut q, 1);
    mm.drive_recovery_replay(&mut q, 2);
    assert_eq!(commands(&q), vec![10, 10]);
    q.clear();
    mm.rx_u_location_update_demand(&mut q, 1000, 10, 4, &demand(LocationUpdateType::DemandLocationUpdating));
    // Known but missing from the registry: registered again, its groups affiliated again.
    assert_eq!(q.len(), 3);
    assert!(is_update(&q[0], 10, SubscriberAction::Register, &[]));
    assert!(is_update(&q[1], 10, SubscriberAction::Affiliate, &[91, 92]));
    match &q[2] {
        MmAction::LocationUpdateAccept { energy_saving, .. } => {
            assert_eq!(energy_saving.unwrap().energy_saving_mode, EnergySavingMode::Eg3);
        },
        _ => panic!("expected an accept"),
    }
    // It answered: replay to it stops.
    q.clear();
    mm.drive_recovery_replay(&mut q, 3);
    assert!(q.is_empty());
}

#[test]
fn reactive_recovery_commands_unknown_terminals_with_cooldown() {
    let mut mm = bs(vec![], 0);
    let mut q = Vec::new();
    mm.maybe_reactive_recovery(&mut q, 50, 10_000);
    assert_eq!(commands(&q), vec![50]);
    // Within the cooldown of 2 s: not again.
    mm.maybe_reactive_recovery(&mut q, 50, 11_999);
    assert_eq!(commands(&q), vec![50]);
    mm.maybe_reactive_recovery(&mut q, 50, 12_000);
    assert_eq!(commands(&q), vec![50, 50]);
    // A known terminal is left alone.
    q.clear();
    mm.rx_u_location_update_demand(&mut q, 0, 50, 1, &demand(LocationUpdateType::ItsiAttach));
    q.clear();
    mm.maybe_reactive_recovery(&mut q, 50, 20_000);
    assert!(q.is_empty());
}

#[test]
fn reactive_recovery_respects_switch_and_whitelist() {
    let mut off = recovery_config(10, vec![]);
    off.reactive_enabled = false;
    let mut mm = bs_with(vec![], 0, off);
    let mut q = Vec::new();
    mm.maybe_reactive_recovery(&mut q, 50, 0);
    assert!(q.is_empty());
    let mut mm = bs(vec![60], 0);
    mm.maybe_reactive_recovery(&mut q, 50, 0);
    assert!(q.is_empty());
    mm.maybe_reactive_recovery(&mut q, 60, 0);
    assert_eq!(commands(&q), vec![60]);
}

#[test]
fn brew_reconnect_commands_every_known_ms_once() {
    let mut mm = bs(vec![], 0);
    let mut q = Vec::new();
    mm.rx_brew_reconnected(&mut q);
    assert!(q.is_empty());
    for issi in [3u32, 1, 2] {
        mm.rx_u_location_update_demand(&mut q, 0, issi, 1, &demand(LocationUpdateType::ItsiAttach));
    }
    mm.rx_u_tei_provide(2, 0x1234_5678_9abc);
    q.clear();
    mm.rx_brew_reconnected(&mut q);
    let mut issis = commands(&q);
    issis.sort();
    assert_eq!(issis, vec![1, 2, 3]);
    assert_eq!(q.len(), 3);
}

#[test]
fn dgna_assigns_and_removes_a_group() {
    let mut mm = bs(vec![], 0);
    let mut q = Vec::new();
    assert!(!mm.do_dgna(&mut q, 70, 500, true));
    assert!(q.is_empty());
    mm.rx_u_location_update_demand(&mut q, 0, 70, 1, &demand(LocationUpdateType::ItsiAttach));
    q.clear();
    assert!(mm.do_dgna(&mut q, 70, 500, true));
    assert_eq!(q.len(), 2);
    assert!(is_update(&q[0], 70, SubscriberAction::Affiliate, &[500]));
    match &q[1] {
        MmAction::AttachDetachCommand { issi: 70, group } => {
            assert_eq!(group.gssi, Some(500));
            let a = group.attachment.unwrap();
            assert_eq!((a.lifetime, a.class_of_usage), (0, 4));
            assert!(group.detachment_uplink.is_none());
        },
        _ => panic!("expected the group command"),
    }
    q.clear();
    assert!(mm.do_dgna(&mut q, 70, 500, false));
    assert!(is_update(&q[0], 70, SubscriberAction::Deaffiliate, &[500]));
    match &q[1] {
        MmAction::AttachDetachCommand { group, .. } => {
            assert!(group.attachment.is_none());
            assert_eq!(group.detachment_uplink, Some(0));
        },
        _ => panic!("expected the group command"),
    }
    // The group is gone: an ITSI detach de-registers without a de-affiliation.
    q.clear();
    mm.rx_u_itsi_detach(&mut q, 70);
    assert_eq!(q.len(), 1);
    assert!(is_update(&q[0], 70, SubscriberAction::Deregister, &[]));
}

#[test]
fn recovery_cache_is_written_when_dirty() {
    let mut mm = bs(vec![], 0);
    assert!(mm.recovery_maybe_flush().is_none());
    assert!(mm.recovery_path().is_none());
    let cache = RecoveryCache::new(String::from("cache.json"), std::time::Duration::from_secs(0));
    mm.init_recovery(cache, vec![record(10, vec![91], 3)], 0);
    assert_eq!(mm.recovery_path(), Some(String::from("cache.json")));
    // Freshly loaded: nothing to write.
    assert!(mm.recovery_maybe_flush().is_none());
    let mut q = Vec::new();
    mm.rx_u_location_update_demand(&mut q, 0, 11, 1, &demand(LocationUpdateType::ItsiAttach));
    let file = mm.recovery_maybe_flush().expect("dirty cache is due");
    assert_eq!(file.version, 1);
    let mut terminals = file.terminals.clone();
    terminals.sort_by_key(|r| r.issi);
    assert_eq!(terminals, vec![record(10, vec![91], 3), record(11, vec![], 0)]);
    // Written: clean again. A failed write keeps it dirty.
    mm.recovery_flush_finished(false);
    assert!(mm.recovery_maybe_flush().is_some());
    mm.recovery_flush_finished(true);
    assert!(mm.recovery_maybe_flush().is_none());
}
