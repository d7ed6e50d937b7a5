use std::time::Instant;
use tetra_entities::net_brew::brew_routable::{
    feature_sds_enabled, is_active, is_brew_external_subscriber_allowed, is_brew_gssi_routable, is_brew_inbound_allowed,
    is_brew_issi_routable, BrewConfig, RoutingConfig, SsiRange,
};
use tetra_entities::net_brew::jitter_buffer::VoiceJitterBuffer;

fn cfg(host: &str, local: Vec<SsiRange>, whitelist: Option<Vec<u32>>, pbx: Option<Vec<u32>>) -> RoutingConfig {
    RoutingConfig {
        brew: Some(BrewConfig { host: host.to_string(), feature_sds_enabled: true, whitelisted_ssis: whitelist, pbx_gateway_issis: pbx }),
        local_ssi_ranges: local,
    }
}

#[test]
fn external_subscriber_state_respects_local_ssi_ranges() {
    let cfg = cfg(
        "example.invalid",
        vec![SsiRange { start: 999, end: 999 }, SsiRange { start: 9998, end: 9999 }],
        None,
        None,
    );

    assert!(!is_brew_external_subscriber_allowed(&cfg, 999));
    assert!(!is_brew_external_subscriber_allowed(&cfg, 9999));
    assert!(is_brew_external_subscriber_allowed(&cfg, 2632585));
}

#[test]
fn group_routing_honours_local_ranges_and_whitelist() {
    let open = cfg("example.invalid", vec![SsiRange { start: 100, end: 199 }], None, None);
    assert!(is_active(&open));
    assert!(feature_sds_enabled(&open));
    assert!(is_brew_gssi_routable(&open, 99));
    assert!(!is_brew_gssi_routable(&open, 150));
    let listed = cfg("example.invalid", vec![], Some(vec![91, 92]), None);
    assert!(is_brew_gssi_routable(&listed, 91));
    assert!(!is_brew_gssi_routable(&listed, 93));
    // The whitelist is outbound only: inbound admission ignores it.
    assert!(is_brew_inbound_allowed(&listed, 93));
    assert!(!is_brew_inbound_allowed(&open, 150));
    let none = RoutingConfig { brew: None, local_ssi_ranges: vec![] };
    assert!(!is_active(&none));
    assert!(!feature_sds_enabled(&none));
    assert!(!is_brew_gssi_routable(&none, 91));
    assert!(!is_brew_inbound_allowed(&none, 91));
    assert!(!is_brew_issi_routable(&none, 91));
}

#[test]
fn tetrapack_routes_short_and_seven_digit_issis_only() {
    let tp = cfg("core.tetrapack.online", vec![], None, Some(vec![12_345_678]));
    assert!(is_brew_issi_routable(&tp, 600));
    assert!(is_brew_issi_routable(&tp, 2_632_585));
    assert!(!is_brew_issi_routable(&tp, 10_000_000));
    assert!(is_brew_issi_routable(&tp, 12_345_678));
    let other = cfg("example.invalid", vec![], None, None);
    assert!(is_brew_issi_routable(&other, 10_000_000));
}

#[test]
fn jitter_buffer_fills_before_playout_and_drops_overflow() {
    let now = Instant::now();
    let mut jb = VoiceJitterBuffer::with_initial_latency(0);
    assert_eq!(jb.target_frames(), 4);
    for i in 0..3u8 {
        jb.push(vec![i], now, 0);
    }
    assert!(jb.pop_ready().is_none());
    jb.push(vec![3], now, 0);
    let f = jb.pop_ready().expect("filled to depth");
    assert_eq!(f.rx_seq, 0);
    assert_eq!(f.acelp_data, vec![0]);
    for i in 4..40u8 {
        jb.push(vec![i], now, 0);
    }
    assert_eq!(jb.len(), 24);
    assert_eq!(jb.dropped_overflow(), 15);
    assert_eq!(jb.flush(), 24);
    assert_eq!(jb.len(), 0);
    assert!(jb.pop_ready().is_none());
}

#[test]
fn jitter_buffer_underrun_raises_depth_and_jitter_is_capped() {
    let now = Instant::now();
    let mut jb = VoiceJitterBuffer::with_initial_latency(50);
    // Initial latency is capped at 10 frames.
    assert_eq!(jb.target_frames(), 14);
    for i in 0..14u8 {
        jb.push(vec![i], now, 0);
    }
    // A push recomputes the depth within [2, 12].
    assert_eq!(jb.target_frames(), 12);
    let mut popped = 0;
    while jb.pop_ready().is_some() {
        popped += 1;
    }
    assert_eq!(popped, 14);
    assert_eq!(jb.underruns(), 1);
    assert!(jb.is_unhealthy());
    let mut calm = VoiceJitterBuffer::with_initial_latency(0);
    calm.push(vec![0], now, 100);
    assert_eq!(calm.target_frames(), 12);
    calm.push(vec![1], now, 2);
    assert_eq!(calm.target_frames(), 6);
    assert!(!calm.is_unhealthy());
}
