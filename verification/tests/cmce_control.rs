use tetra_entities::cmce::cc_bs::subentity::{CcAction, CcBsSubentity, CcConfig, MmSubscriberUpdate, SubscriberAction};
use tetra_entities::cmce::cmce_bs::{
    accepts_subscriber_update, do_control_command, kick_all, ControlCommand, ControlEffect, ServiceAction,
};
use tetra_entities::net_brew::brew_routable::{BrewConfig, RoutingConfig};

fn routing(brew: bool) -> RoutingConfig {
    RoutingConfig {
        brew: if brew {
            Some(BrewConfig {
                host: "example.invalid".to_string(),
                feature_sds_enabled: false,
                whitelisted_ssis: None,
                pbx_gateway_issis: None,
            })
        } else {
            None
        },
        local_ssi_ranges: Vec::new(),
    }
}

fn cc() -> CcBsSubentity {
    CcBsSubentity::new(CcConfig { routing: routing(false), call_timeout_secs: 120, network_connected: false })
}

fn update(issi: u32, groups: Vec<u32>, action: SubscriberAction) -> MmSubscriberUpdate {
    MmSubscriberUpdate { issi, groups, action }
}

#[test]
fn kick_ms_command_answers_only_with_a_requester() {
    let mut cc = cc();
    let mut q = Vec::new();
    cc.handle_subscriber_update(&mut q, update(100, vec![], SubscriberAction::Register));
    let r = do_control_command(&mut cc, &mut q, ControlCommand::KickMs { issi: 100 }, true);
    assert!(matches!(r, ControlEffect::KickMsResponse { issi: 100, success: true }));
    assert_eq!(q.last(), Some(&CcAction::DeregisterSubscriber { issi: 100 }));
    q.clear();
    let r = do_control_command(&mut cc, &mut q, ControlCommand::KickMs { issi: 100 }, true);
    assert!(matches!(r, ControlEffect::KickMsResponse { issi: 100, success: false }));
    assert!(q.is_empty());
    let r = do_control_command(&mut cc, &mut q, ControlCommand::KickMs { issi: 100 }, false);
    assert!(matches!(r, ControlEffect::KickMsDone));
}

#[test]
fn other_commands_go_to_their_owners() {
    let mut cc = cc();
    let mut q = Vec::new();
    let r = do_control_command(
        &mut cc,
        &mut q,
        ControlCommand::Dgna { issi: 100, gssi: 9000, mnemonic: Some("OPS".to_string()), attachment_mode: 1, attach: true },
        true,
    );
    match r {
        ControlEffect::DgnaToMm { issi, gssi, mnemonic, attachment_mode, attach } => {
            assert_eq!((issi, gssi, attachment_mode, attach), (100, 9000, 1, true));
            assert_eq!(mnemonic.as_deref(), Some("OPS"));
        },
        other => panic!("unexpected {:?}", other),
    }
    let r = do_control_command(&mut cc, &mut q, ControlCommand::RestartService, false);
    assert!(matches!(r, ControlEffect::Service { action: ServiceAction::Restart, delay_ms: 500 }));
    let r = do_control_command(&mut cc, &mut q, ControlCommand::ShutdownService, false);
    assert!(matches!(r, ControlEffect::Service { action: ServiceAction::Stop, delay_ms: 500 }));
    let r = do_control_command(&mut cc, &mut q, ControlCommand::Sds { kind: 3 }, false);
    assert!(matches!(r, ControlEffect::ToSds { kind: 3 }));
    assert!(q.is_empty());
}

#[test]
fn kick_all_leaves_no_subscriber() {
    let mut cc = cc();
    let mut q = Vec::new();
    cc.handle_subscriber_update(&mut q, update(100, vec![1000], SubscriberAction::Affiliate));
    cc.handle_subscriber_update(&mut q, update(101, vec![], SubscriberAction::Register));
    kick_all(&mut cc, &mut q);
    assert!(cc.subscriber_issis().is_empty());
    assert!(!cc.has_listener(1000));
    assert_eq!(q.iter().filter(|a| matches!(a, CcAction::DeregisterSubscriber { .. })).count(), 2);
}

#[test]
fn brew_subscriber_updates_are_filtered() {
    let r = routing(true);
    let reg_only = update(2_000_000, vec![], SubscriberAction::Register);
    let affil = update(2_000_000, vec![9000], SubscriberAction::Affiliate);
    // Local sources always pass.
    assert!(accepts_subscriber_update(&r, false, &reg_only));
    // From Brew: a presence-only registration is dropped, an affiliation passes.
    assert!(!accepts_subscriber_update(&r, true, &reg_only));
    assert!(accepts_subscriber_update(&r, true, &affil));
    // Without Brew configured nothing from Brew passes.
    assert!(!accepts_subscriber_update(&routing(false), true, &affil));
}
