use std::collections::HashMap;
use tetra_entities::cmce::ss_bs::{
    dgna_delivery, encode_mnemonic, resolve_traffic_delivery, DgnaDelivery, SsAction, SsBsSubentity, UplinkFacility,
};

#[test]
fn mnemonic_is_cut_and_latin1_only() {
    assert_eq!(encode_mnemonic("Fire Brigade North 1"), "Fire Brigade No");
    assert_eq!(encode_mnemonic("Café Ω"), "Café ?");
    assert_eq!(encode_mnemonic(""), "");
}

#[test]
fn traffic_delivery_prefers_own_call_then_first_group() {
    let mut calls = HashMap::new();
    calls.insert(500u32, (0u16, 3u8, 9u8));
    calls.insert(600u32, (0u16, 2u8, 7u8));
    assert_eq!(resolve_traffic_delivery(&calls, &vec![400, 600, 500], 42), Some((0, 2, 7)));
    calls.insert(42u32, (1u16, 4u8, 5u8));
    assert_eq!(resolve_traffic_delivery(&calls, &vec![500], 42), Some((1, 4, 5)));
    assert_eq!(resolve_traffic_delivery(&calls, &vec![7], 43), None);
    assert_eq!(dgna_delivery(Some((0, 2, 7))), DgnaDelivery::Stealing { carrier_num: 0, ts: 2, usage: 7 });
    assert_eq!(dgna_delivery(Some((0, 0, 7))), DgnaDelivery::Mcch);
    assert_eq!(dgna_delivery(Some((0, 5, 7))), DgnaDelivery::Mcch);
    assert_eq!(dgna_delivery(None), DgnaDelivery::Mcch);
}

#[test]
fn dgna_facility_and_acknowledgements() {
    let mut ss = SsBsSubentity::new();
    let mut q = Vec::new();
    ss.send_d_facility_dgna(&mut q, 42, 900, Some(String::from("Ops Ω")), 1, true, Some((0, 3, 9)));
    assert_eq!(
        q,
        vec![SsAction::DFacilityDgna {
            issi: 42,
            gssi: 900,
            attach: true,
            attachment_mode: 1,
            mnemonic: Some(String::from("Ops ?")),
            delivery: DgnaDelivery::Stealing { carrier_num: 0, ts: 3, usage: 9 },
        }]
    );
    ss.set_telemetry(true);
    q.clear();
    ss.send_d_facility_dgna(&mut q, 42, 900, None, 0, false, None);
    assert_eq!(q[0], SsAction::DgnaStatus { issi: 42, gssi: 900, attach: false, accepted: true });
    assert!(matches!(q[1], SsAction::DFacilityDgna { attach: false, delivery: DgnaDelivery::Mcch, .. }));

    q.clear();
    ss.route_re_deliver(&mut q, 42, 1, 2, 3, &UplinkFacility::AssignAck(vec![(900, true), (901, false)]));
    assert_eq!(
        q,
        vec![
            SsAction::DgnaStatus { issi: 42, gssi: 900, attach: true, accepted: true },
            SsAction::DgnaStatus { issi: 42, gssi: 901, attach: true, accepted: false },
        ]
    );
    q.clear();
    ss.route_re_deliver(&mut q, 42, 1, 2, 3, &UplinkFacility::OtherDgna);
    assert!(q.is_empty());
    ss.route_re_deliver(&mut q, 42, 1, 2, 3, &UplinkFacility::NotDgna);
    assert_eq!(q, vec![SsAction::FunctionNotSupported { issi: 42, handle: 1, link_id: 2, endpoint_id: 3 }]);
}
