//! Supplementary services sub-entity of CMCE: the base-station side of SS-DGNA (dynamic group
//! number assignment). It puts the SwMI-initiated ASSIGN/DEASSIGN on the air inside a CMCE
//! D-FACILITY and takes the MS's ASSIGN ACK / DEASSIGN ACK off the uplink U-FACILITY. The group
//! state itself is MM's; this sub-entity only chooses how the PDU travels and reports outcomes.
use vstd::prelude::*;
use std::collections::HashMap;
use crate::text::push_char;

verus! {

/// Class of usage advertised in an SS-DGNA group assignment, as for a group the MS attached
/// itself.
pub const SS_DGNA_CLASS_OF_USAGE: u8 = 4;

/// Longest mnemonic group name carried, in characters.
pub const MNEMONIC_MAX_CHARS: usize = 15;

/// How a D-FACILITY reaches the MS.
#[derive(Debug, Clone, Copy, PartialEq, Eq, Structural)]
pub enum DgnaDelivery {
    /// In a call: unacknowledged, stolen from the downlink traffic channel on timeslot `ts`.
    Stealing { carrier_num: u16, ts: u8, usage: u8 },
    /// Idle: acknowledged on the MCCH.
    Mcch,
}

/// The uplink U-FACILITY, as far as this sub-entity reads it.
pub enum UplinkFacility {
    /// SS-DGNA ASSIGN ACK: per group, its GSSI and whether assignment and attachment were
    /// both accepted.
    AssignAck(Vec<(u32, bool)>),
    /// SS-DGNA DEASSIGN ACK: per group, its GSSI and whether the deassignment was accepted.
    DeassignAck(Vec<(u32, bool)>),
    /// Another SS-DGNA PDU (an MS acting as dispatcher, which this BS does not serve).
    OtherDgna,
    /// An empty U-FACILITY, or one that is not SS-DGNA.
    NotDgna,
}

/// Work that the SS sub-entity hands to the rest of the stack.
#[derive(Debug, Clone, PartialEq, Eq)]
pub enum SsAction {
    /// D-FACILITY carrying SS-DGNA ASSIGN (`attach`) or DEASSIGN of group `gssi` to `issi`,
    /// acknowledgement requested. An ASSIGN carries the requested raw attachment mode, the
    /// class of usage `SS_DGNA_CLASS_OF_USAGE` and the mnemonic group name, if any.
    DFacilityDgna {
        issi: u32,
        gssi: u32,
        attach: bool,
        attachment_mode: u8,
        mnemonic: Option<String>,
        delivery: DgnaDelivery,
    },
    /// D-CMCE-FUNCTION-NOT-SUPPORTED answering a U-FACILITY (pointer 0: the PDU type itself),
    /// over the link it came on.
    FunctionNotSupported { issi: u32, handle: u32, link_id: u32, endpoint_id: u32 },
    /// Dashboard telemetry: outcome of an SS-DGNA step for `issi` and `gssi`.
    DgnaStatus { issi: u32, gssi: u32, attach: bool, accepted: bool },
}

/// A mnemonic character as carried: characters beyond Latin-1 become '?'.
pub open spec fn mnemonic_char(c: char) -> char {
    if (c as u32) <= 0xff { c } else { '?' }
}

/// A mnemonic group name as carried: its first `MNEMONIC_MAX_CHARS` characters, each as
/// `mnemonic_char` gives it.
pub open spec fn spec_encode_mnemonic(name: Seq<char>) -> Seq<char> {
    (if name.len() > MNEMONIC_MAX_CHARS { name.take(MNEMONIC_MAX_CHARS as int) } else { name }).map_values(
        |c: char| mnemonic_char(c),
    )
}

/// Encode a mnemonic group name for the air (see `spec_encode_mnemonic`).
pub fn encode_mnemonic(name: &str) -> (r: String)
    ensures
        r@ == spec_encode_mnemonic(name@),
{
    let n = name.unicode_len();
    let m = if n > MNEMONIC_MAX_CHARS { MNEMONIC_MAX_CHARS } else { n };
    let ghost kept = if name@.len() > MNEMONIC_MAX_CHARS { name@.take(MNEMONIC_MAX_CHARS as int) } else { name@ };
    let mut out = String::new();
    let mut i: usize = 0;
    while i < m
        invariant
            m <= n,
            n == name@.len(),
            kept.len() == m,
            forall|j: int| 0 <= j < m ==> kept[j] == name@[j],
            i <= m,
            out@ == kept.take(i as int).map_values(|c: char| mnemonic_char(c)),
        decreases m - i,
    {
        let c = name.get_char(i);
        let cp = c as u32;
        let shown = if cp <= 0xff { c } else { '?' };
        push_char(&mut out, shown);
        proof {
            assert(kept.take(i + 1) == kept.take(i as int).push(c));
            assert(out@ =~= kept.take(i + 1).map_values(|c: char| mnemonic_char(c)));
        }
        i = i + 1;
    }
    assert(kept.take(m as int) == kept);
    out
}

/// The first of `groups` that has an active call timeslot in `calls`, if any.
pub open spec fn first_group_call(calls: Map<u32, (u16, u8, u8)>, groups: Seq<u32>) -> Option<(u16, u8, u8)>
    decreases groups.len(),
{
    if groups.len() == 0 {
        None
    } else if calls.contains_key(groups[0]) {
        Some(calls[groups[0]])
    } else {
        first_group_call(calls, groups.drop_first())
    }
}

/// The traffic channel `(carrier, timeslot, usage)` on which `issi` can be reached in a call:
/// its own individual call's, else that of the first of its attached groups `groups` with an
/// active call, if any.
pub open spec fn spec_traffic_delivery(calls: Map<u32, (u16, u8, u8)>, groups: Seq<u32>, issi: u32) -> Option<
    (u16, u8, u8),
> {
    if calls.contains_key(issi) {
        Some(calls[issi])
    } else {
        first_group_call(calls, groups)
    }
}

/// Where `issi` can be reached in a call (see `spec_traffic_delivery`), from the active call
/// timeslots `active_call_ts` (by ISSI and GSSI) and its attached groups `attached_groups`.
pub fn resolve_traffic_delivery(active_call_ts: &HashMap<u32, (u16, u8, u8)>, attached_groups: &Vec<u32>, issi: u32) -> (r:
    Option<(u16, u8, u8)>)
    ensures
        r == spec_traffic_delivery(active_call_ts@, attached_groups@, issi),
{
    match active_call_ts.get(&issi) {
        Some(t) => return Some(*t),
        None => {},
    }
    let ghost gs = attached_groups@;
    assert(gs.skip(0) =~= gs);
    let mut i: usize = 0;
    while i < attached_groups.len()
        invariant
            i <= gs.len(),
            gs == attached_groups@,
            !active_call_ts@.contains_key(issi),
            first_group_call(active_call_ts@, gs) == first_group_call(active_call_ts@, gs.skip(i as int)),
        decreases gs.len() - i,
    {
        let g = attached_groups[i];
        proof {
            assert(gs.skip(i as int)[0] == g);
            assert(gs.skip(i as int).drop_first() =~= gs.skip(i + 1));
        }
        match active_call_ts.get(&g) {
            Some(t) => {
                assert(first_group_call(active_call_ts@, gs.skip(i as int)) == Some(active_call_ts@[g]));
                return Some(*t);
            },
            None => {},
        }
        assert(first_group_call(active_call_ts@, gs.skip(i as int)) == first_group_call(active_call_ts@, gs.skip(i + 1)));
        i = i + 1;
    }
    assert(gs.skip(gs.len() as int).len() == 0);
    None
}

/// How a D-FACILITY travels: stolen from the traffic channel when the MS is in a call on a
/// valid timeslot (1 to 4), else on the MCCH.
pub open spec fn spec_dgna_delivery(traffic: Option<(u16, u8, u8)>) -> DgnaDelivery {
    match traffic {
        Some((carrier_num, ts, usage)) => if 1 <= ts && ts <= 4 {
            DgnaDelivery::Stealing { carrier_num, ts, usage }
        } else {
            DgnaDelivery::Mcch
        },
        None => DgnaDelivery::Mcch,
    }
}

pub fn dgna_delivery(traffic: Option<(u16, u8, u8)>) -> (d: DgnaDelivery)
    ensures
        d == spec_dgna_delivery(traffic),
{
    match traffic {
        Some((carrier_num, ts, usage)) => if 1 <= ts && ts <= 4 {
            DgnaDelivery::Stealing { carrier_num, ts, usage }
        } else {
            DgnaDelivery::Mcch
        },
        None => DgnaDelivery::Mcch,
    }
}

/// `a` is the D-FACILITY carrying SS-DGNA ASSIGN (`attach`) or DEASSIGN of `gssi` to `issi`
/// with raw attachment mode `mode`, the mnemonic `name` encoded (see `spec_encode_mnemonic`),
/// travelling as `delivery`.
pub open spec fn dgna_facility(
    a: SsAction,
    issi: u32,
    gssi: u32,
    attach: bool,
    mode: u8,
    name: Option<Seq<char>>,
    delivery: DgnaDelivery,
) -> bool {
    &&& a matches SsAction::DFacilityDgna { issi: i, gssi: g, attach: at, attachment_mode: am, mnemonic: mn, delivery: d }
    &&& i == issi && g == gssi && at == attach && am == mode && d == delivery
    &&& match (mn, name) {
        (Some(s), Some(v)) => s@ == spec_encode_mnemonic(v),
        (None, None) => true,
        _ => false,
    }
}

/// The DGNA status reports of acknowledgement entries `acks` from `issi`, in order.
pub open spec fn ack_reports(issi: u32, attach: bool, acks: Seq<(u32, bool)>) -> Seq<SsAction> {
    acks.map_values(|a: (u32, bool)| SsAction::DgnaStatus { issi, gssi: a.0, attach, accepted: a.1 })
}

pub struct SsBsSubentity {
    telemetry: bool,
}

impl SsBsSubentity {
    pub closed spec fn spec_telemetry(&self) -> bool {
        self.telemetry
    }

    pub fn new() -> (s: Self)
        ensures
            !s.spec_telemetry(),
    {
        SsBsSubentity { telemetry: false }
    }

    /// Report DGNA outcomes on the telemetry channel.
    pub fn set_telemetry(&mut self, on: bool)
        ensures
            final(self).spec_telemetry() == on,
    {
        self.telemetry = on;
    }

    /// Send SS-DGNA ASSIGN (`attach`) or DEASSIGN of `gssi` to `issi` in a D-FACILITY, the
    /// mnemonic encoded (see `spec_encode_mnemonic`), travelling as `spec_dgna_delivery` gives
    /// for the MS's call timeslot `traffic` (see `resolve_traffic_delivery`). With telemetry on,
    /// the queued request is reported first.
    pub fn send_d_facility_dgna(
        &self,
        queue: &mut Vec<SsAction>,
        issi: u32,
        gssi: u32,
        mnemonic: Option<String>,
        attachment_mode: u8,
        attach: bool,
        traffic: Option<(u16, u8, u8)>,
    )
        ensures
            final(queue)@.len() == old(queue)@.len() + if self.spec_telemetry() { 2int } else { 1int },
            final(queue)@.take(old(queue)@.len() as int) == old(queue)@,
            self.spec_telemetry() ==> final(queue)@[old(queue)@.len() as int] == (SsAction::DgnaStatus {
                issi,
                gssi,
                attach,
                accepted: true,
            }),
            dgna_facility(
                final(queue)@.last(),
                issi,
                gssi,
                attach,
                attachment_mode,
                match mnemonic {
                    Some(m) => Some(m@),
                    None => None,
                },
                spec_dgna_delivery(traffic),
            ),
    {
        let encoded = match &mnemonic {
            Some(m) => Some(encode_mnemonic(m.as_str())),
            None => None,
        };
        let delivery = dgna_delivery(traffic);
        if self.telemetry {
            queue.push(SsAction::DgnaStatus { issi, gssi, attach, accepted: true });
        }
        queue.push(SsAction::DFacilityDgna { issi, gssi, attach, attachment_mode, mnemonic: encoded, delivery });
    }

    /// A U-FACILITY from `issi` over link `handle`/`link_id`/`endpoint_id`. An SS-DGNA
    /// acknowledgement confirms a regroup MM already committed: with telemetry on, each group's
    /// outcome is reported, and nothing is answered. Another SS-DGNA PDU is ignored. Anything
    /// else is answered D-CMCE-FUNCTION-NOT-SUPPORTED.
    pub fn route_re_deliver(
        &self,
        queue: &mut Vec<SsAction>,
        issi: u32,
        handle: u32,
        link_id: u32,
        endpoint_id: u32,
        facility: &UplinkFacility,
    )
        ensures
            final(queue)@ == old(queue)@ + match facility {
                UplinkFacility::AssignAck(acks) => if self.spec_telemetry() {
                    ack_reports(issi, true, acks@)
                } else {
                    Seq::empty()
                },
                UplinkFacility::DeassignAck(acks) => if self.spec_telemetry() {
                    ack_reports(issi, false, acks@)
                } else {
                    Seq::empty()
                },
                UplinkFacility::OtherDgna => Seq::empty(),
                UplinkFacility::NotDgna => seq![SsAction::FunctionNotSupported { issi, handle, link_id, endpoint_id }],
            },
    {
        match facility {
            UplinkFacility::AssignAck(acks) => {
                if self.telemetry {
                    Self::push_reports(queue, issi, true, acks);
                }
            },
            UplinkFacility::DeassignAck(acks) => {
                if self.telemetry {
                    Self::push_reports(queue, issi, false, acks);
                }
            },
            UplinkFacility::OtherDgna => {},
            UplinkFacility::NotDgna => {
                queue.push(SsAction::FunctionNotSupported { issi, handle, link_id, endpoint_id });
            },
        }
    }

    fn push_reports(queue: &mut Vec<SsAction>, issi: u32, attach: bool, acks: &Vec<(u32, bool)>)
        ensures
            final(queue)@ == old(queue)@ + ack_reports(issi, attach, acks@),
    {
        let ghost q0 = queue@;
        let mut i: usize = 0;
        while i < acks.len()
            invariant
                i <= acks@.len(),
                queue@ == q0 + ack_reports(issi, attach, acks@.take(i as int)),
            decreases acks@.len() - i,
        {
            let (gssi, accepted) = acks[i];
            queue.push(SsAction::DgnaStatus { issi, gssi, attach, accepted });
            proof {
                assert(acks@.take(i + 1) == acks@.take(i as int).push((gssi, accepted)));
                assert(queue@ =~= q0 + ack_reports(issi, attach, acks@.take(i + 1)));
            }
            i = i + 1;
        }
        assert(acks@.take(acks@.len() as int) == acks@);
    }
}

} // verus!
