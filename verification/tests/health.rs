use tetra_entities::health::registry::{HealthRegistry, HealthThresholds, effective_radios_silent_secs};
use tetra_entities::health::supervisor::{HealthMonitorConfig, WatchdogDecision, WatchdogState, watchdog_stall_ms};
use tetra_entities::health::types::{HealthDomain, HealthLevel};

#[test]
fn snapshot_rolls_up_worst_level() {
    let mut reg = HealthRegistry::new();
    let t = HealthThresholds::default();

    // Before any tick, within the startup grace → Service Ok.
    let snap = reg.snapshot(&t);
    assert_eq!(snap.domains[0].level, HealthLevel::Okay); // service "starting"
    assert_eq!(snap.overall, HealthLevel::Okay);

    // Brew configured but down → Backhaul Degraded → overall Degraded.
    reg.set_brew_configured(true);
    reg.note_tick(); // service Ok
    let snap = reg.snapshot(&t);
    assert_eq!(snap.overall, HealthLevel::Degraded);
    assert_eq!(snap.domains[1].level, HealthLevel::Degraded);

    // Brew up → back to Ok.
    reg.set_brew_up(true);
    assert_eq!(reg.snapshot(&t).overall, HealthLevel::Okay);

    // Congestion over the critical mark → Critical overall.
    reg.set_dl_queue_depth(t.dl_queue_critical + 1);
    let snap = reg.snapshot(&t);
    assert_eq!(snap.overall, HealthLevel::Critical);
    assert_eq!(snap.domains[3].level, HealthLevel::Critical);
}

#[test]
fn radios_silent_threshold_respects_t351() {
    assert_eq!(effective_radios_silent_secs(900, 86_400), 129_600); // 1.5 × 24 h, not 900
    assert_eq!(effective_radios_silent_secs(900, 3_600), 5_400); // 1.5 × 1 h (> 900 floor)
    assert_eq!(effective_radios_silent_secs(900, 0), 900); // no periodic registration → floor
    assert_eq!(effective_radios_silent_secs(7_200, 3_600), 7_200); // explicit floor wins when larger
    assert!(1_700 < effective_radios_silent_secs(900, 86_400));
}

#[test]
fn radios_silent_is_degraded_only_when_attached_at_fixed_times() {
    let mut reg = HealthRegistry::new();
    let mut t = HealthThresholds::default();
    t.radios_silent_degraded_secs = 1;
    t.periodic_registration_secs = 0;
    // Ticked and heard at ms 1 (stamps of 0 mean "never").
    reg.note_tick();
    reg.note_radio_activity();
    reg.set_registered_radios(0);
    let snap = reg.snapshot_at(1_101, 1, &t);
    assert_eq!(snap.domains[2].level, HealthLevel::Okay);
    reg.set_registered_radios(3);
    let snap = reg.snapshot_at(60_000, 60, &t);
    assert_eq!(snap.domains[2].level, HealthLevel::Degraded);
    assert!(snap.domains[2].detail.starts_with("3 attached, silent "));
    t.radios_silent_degraded_secs = 0;
    assert_eq!(reg.snapshot_at(60_000, 60, &t).domains[2].level, HealthLevel::Okay);
}

#[test]
fn snapshot_details_and_service_levels() {
    let mut reg = HealthRegistry::new();
    let t = HealthThresholds::default();
    // Never ticked, past the grace period: the age is the whole uptime.
    let snap = reg.snapshot_at(12_345, 12, &t);
    assert_eq!(snap.domains[0].domain, HealthDomain::Service);
    assert_eq!(snap.domains[0].level, HealthLevel::Critical);
    assert_eq!(snap.domains[0].detail, "core loop stalled 12s");
    let snap = reg.snapshot_at(4_000, 4, &t);
    assert_eq!(snap.domains[0].detail, "starting");
    let snap = reg.snapshot_at(6_000, 6, &t);
    assert_eq!(snap.domains[0].level, HealthLevel::Degraded);
    assert_eq!(snap.domains[0].detail, "core loop slow (6000ms since last tick)");
    assert_eq!(snap.domains[1].detail, "not configured");
    assert_eq!(snap.domains[2].detail, "0 attached");
    reg.set_dl_queue_depth(5);
    reg.set_sds_queue_depth(40);
    let snap = reg.snapshot_at(6_000, 6, &t);
    assert_eq!(snap.domains[3].detail, "dl=5 sds=40");
    assert_eq!(snap.domains[3].level, HealthLevel::Degraded);
    assert_eq!(snap.uptime_secs, 6);
    assert!(snap.last_action.is_none());
    reg.record_action("restart_service (core loop stalled 30s)".to_string());
    assert_eq!(reg.snapshot_at(6_000, 6, &t).last_action.as_deref(), Some("restart_service (core loop stalled 30s)"));
}

#[test]
fn level_names_and_worst() {
    assert_eq!(HealthLevel::Okay.as_str(), "ok");
    assert_eq!(HealthLevel::Degraded.as_str(), "degraded");
    assert_eq!(HealthLevel::Critical.as_str(), "critical");
    assert_eq!(HealthDomain::Congestion.as_str(), "congestion");
    assert_eq!(HealthDomain::Backhaul.as_str(), "backhaul");
    assert_eq!(HealthLevel::Okay.worst(HealthLevel::Degraded), HealthLevel::Degraded);
    assert_eq!(HealthLevel::Critical.worst(HealthLevel::Degraded), HealthLevel::Critical);
    assert_eq!(HealthLevel::Okay.worst(HealthLevel::Okay), HealthLevel::Okay);
}

#[test]
fn watchdog_waits_then_restarts_then_cools_down() {
    let cfg = HealthMonitorConfig::default();
    assert!(!cfg.restart_on_core_stall);
    let stall = watchdog_stall_ms(cfg.thresholds.core_stall_critical_ms);
    assert_eq!(stall, 10_000);
    assert_eq!(watchdog_stall_ms(10), 1_000);
    let mut w = WatchdogState::new();
    assert_eq!(w.step(1_000, 500, stall, 30_000, 600_000), WatchdogDecision::Ticking);
    assert_eq!(w.step(2_000, 20_000, stall, 30_000, 600_000), WatchdogDecision::StalledWaiting);
    assert_eq!(w.stall_since_ms, Some(2_000));
    assert_eq!(w.step(40_000, 58_000, stall, 30_000, 600_000), WatchdogDecision::Restart);
    assert_eq!(w.last_restart_ms, Some(40_000));
    assert_eq!(w.step(50_000, 68_000, stall, 30_000, 600_000), WatchdogDecision::CoolingDown);
    assert_eq!(w.step(60_000, 100, stall, 30_000, 600_000), WatchdogDecision::Ticking);
    assert_eq!(w.stall_since_ms, None);
    assert_eq!(w.step(700_000, 20_000, stall, 0, 600_000), WatchdogDecision::Restart);
}

#[test]
fn stamps_take_the_clock_reading() {
    let mut reg = HealthRegistry::new();
    // A reading of 0 is stored as 1 (0 means "never").
    reg.note_tick_at(0);
    assert_eq!(reg.tick_age_ms_at(1_000), 999);
    reg.note_tick_at(500);
    assert_eq!(reg.tick_age_ms_at(1_500), 1_000);
    let mut t = HealthThresholds::default();
    t.radios_silent_degraded_secs = 1;
    t.periodic_registration_secs = 0;
    reg.set_registered_radios(2);
    reg.note_radio_activity_at(10_000);
    assert_eq!(reg.snapshot_at(10_500, 10, &t).domains[2].level, HealthLevel::Okay);
    assert_eq!(reg.snapshot_at(11_000, 11, &t).domains[2].level, HealthLevel::Degraded);
}
