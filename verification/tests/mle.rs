use chrono::{TimeZone, Utc};
use tetra_entities::mle::broadcast::{BroadcastType, MleBroadcast};
use tetra_entities::mle::network_time::{encode_tetra_network_time, encode_tetra_network_time_inner, pack_network_time};

#[test]
fn test_encode_known_time() {
    // 2026-02-15 12:00:00 UTC
    let dt = Utc.with_ymd_and_hms(2026, 2, 15, 12, 0, 0).unwrap();
    let tz = "Europe/Amsterdam";

    let value = encode_tetra_network_time_inner(dt.timestamp(), tz).unwrap();

    let year_start = Utc.with_ymd_and_hms(2026, 1, 1, 0, 0, 0).unwrap();
    let expected_secs = (dt - year_start).num_seconds();
    let expected_utc_time = (expected_secs / 2) as u64;

    // Europe/Amsterdam in February = CET = UTC+1 -> offset_sign=0, offset=4 (4*15min=60min=1h)
    let expected_sign: u64 = 0;
    let expected_offset: u64 = 4;
    let expected_year: u64 = 26;
    let expected_reserved: u64 = 0x7FF;

    let expected =
        (expected_utc_time << 24) | (expected_sign << 23) | (expected_offset << 17) | (expected_year << 11) | expected_reserved;

    assert_eq!(value, expected);
    assert_eq!((value >> 24) & 0xFF_FFFF, expected_utc_time);
    assert_eq!((value >> 23) & 1, 0);
    assert_eq!((value >> 17) & 0x3F, 4);
    assert_eq!((value >> 11) & 0x3F, 26);
    assert_eq!(value & 0x7FF, 0x7FF);
}

#[test]
fn test_encode_bucharest_summer() {
    let dt = Utc.with_ymd_and_hms(2026, 5, 15, 10, 0, 0).unwrap();
    let value = encode_tetra_network_time_inner(dt.timestamp(), "Europe/Bucharest").unwrap();

    assert_eq!((value >> 23) & 1, 0, "offset ar trebui sa fie pozitiv (est de UTC)");
    assert_eq!((value >> 17) & 0x3F, 12, "UTC+3 = 180min / 15 = 12 incremente");
    assert_eq!((value >> 11) & 0x3F, 26, "year 2026");
    assert_eq!(value & 0x7FF, 0x7FF, "reserved bits");
}

#[test]
fn test_encode_bucharest_winter() {
    let dt = Utc.with_ymd_and_hms(2026, 1, 15, 10, 0, 0).unwrap();
    let value = encode_tetra_network_time_inner(dt.timestamp(), "Europe/Bucharest").unwrap();

    assert_eq!((value >> 23) & 1, 0, "offset ar trebui sa fie pozitiv");
    assert_eq!((value >> 17) & 0x3F, 8, "UTC+2 = 120min / 15 = 8 incremente");
}

#[test]
fn test_encode_negative_offset() {
    let dt = Utc.with_ymd_and_hms(2026, 1, 15, 12, 0, 0).unwrap();
    let value = encode_tetra_network_time_inner(dt.timestamp(), "America/New_York").unwrap();

    assert_eq!((value >> 23) & 1, 1);
    assert_eq!((value >> 17) & 0x3F, 20);
    assert_eq!((value >> 11) & 0x3F, 26);
    assert_eq!(value & 0x7FF, 0x7FF);
}

#[test]
fn test_encode_utc_timezone() {
    let dt = Utc.with_ymd_and_hms(2026, 2, 1, 0, 0, 0).unwrap();
    let value = encode_tetra_network_time_inner(dt.timestamp(), "UTC").unwrap();

    assert_eq!((value >> 23) & 1, 0);
    assert_eq!((value >> 17) & 0x3F, 0);
}

#[test]
fn test_invalid_timezone() {
    assert!(encode_tetra_network_time("Invalid/Timezone").is_none());
}

#[test]
fn test_year_start_never_returns_none() {
    for year in [2024, 2025, 2026, 2030, 2050] {
        let result = Utc.with_ymd_and_hms(year, 1, 1, 0, 0, 0).earliest();
        assert!(result.is_some(), "year_start should never be None for year {}", year);
    }
}

#[test]
fn network_time_fields_pack_exactly() {
    // 10 s into 2026, UTC-5h30 (22 steps of 15 min, west).
    let v = pack_network_time(10, -19_800, 2026);
    assert_eq!(v, (5u64 << 24) | (1 << 23) | (22 << 17) | (26 << 11) | 0x7FF);
    // Negative elapsed time counts as zero; the year wraps into 6 bits.
    let v = pack_network_time(-5, 3600, 2064);
    assert_eq!(v, (0u64 << 24) | (0 << 23) | (4 << 17) | (0 << 11) | 0x7FF);
}

#[test]
fn broadcast_starts_once_time_or_neighbours_are_configured() {
    let mut none = MleBroadcast::new(None, 0);
    assert_eq!(none.determine_next_broadcast_type(), BroadcastType::NoBroadcast);
    assert!(none.send_broadcast().is_none());
    let mut with_neighbours = MleBroadcast::new(None, 3);
    assert_eq!(with_neighbours.determine_next_broadcast_type(), BroadcastType::NetworkTime);
    let b = with_neighbours.send_broadcast().expect("neighbours are announced");
    assert_eq!(b.neighbour_count, 3);
    assert!(b.network_time.is_none());
    assert_eq!(with_neighbours.determine_next_broadcast_type(), BroadcastType::NetworkTime);
    let mut timed = MleBroadcast::new(Some("UTC".to_string()), 0);
    let b = timed.send_broadcast().expect("time is announced");
    assert_eq!(b.neighbour_count, 0);
    assert_eq!(b.network_time.map(|v| v & 0x7FF), Some(0x7FF));
    let mut broken = MleBroadcast::new(Some("Invalid/Timezone".to_string()), 0);
    assert!(broken.send_broadcast().is_none());
}
