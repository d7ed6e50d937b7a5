//! Circuit manager: the traffic circuits open on the cell, the downlink blocks queued on
//! them, call identifiers and usage markers, and the periodic D-SETUP / expiry schedule.
use vstd::prelude::*;
use std::collections::{HashMap, VecDeque};
use crate::tdma::{CarrierSlot, Direction, TdmaTime, spec_age};

verus! {

broadcast use vstd::std_specs::hash::group_hash_axioms;

/// D-SETUP is repeated in the first frame after a circuit opens (one frame = 4 timeslots).
pub const D_SETUP_REPEAT_TIMESLOTS: i64 = 4;
/// Late-entry D-SETUP interval: 5 multiframes.
pub const LATE_ENTRY_INTERVAL_TIMESLOTS: i64 = 360;
/// Simplex circuits older than 6 minutes (6 x 60 x 18 x 4 timeslots) are force-closed.
pub const CIRCUIT_EXPIRY_TIMESLOTS: i64 = 25920;
/// Largest 10-bit call identifier handed out before wrapping to 1.
pub const MAX_CALL_IDENTIFIER: u16 = 0x3FF;
/// Usage markers are 5-bit and run from 4 to 31 (0..=3 are reserved).
pub const MIN_USAGE_NUMBER: u8 = 4;
pub const MAX_USAGE_NUMBER: u8 = 31;

#[derive(Debug, Clone, Copy, PartialEq, Eq, Structural)]
pub enum CircuitErr {
    NoCircuitFree,
    CircuitAlreadyInUse,
    CircuitNotActive,
}

/// Communication type of a circuit-mode call (ETSI EN 300 392-2 clause 14.8.4).
#[derive(Debug, Clone, Copy, PartialEq, Eq, Structural)]
pub enum CommunicationType {
    P2p,
    P2Mp,
    P2MpAck,
    Broadcast,
}

/// Traffic channel type of a circuit.
#[derive(Debug, Clone, Copy, PartialEq, Eq, Structural)]
pub enum CircuitModeType {
    TchS,
    Tch72,
    Tch48N1,
    Tch48N4,
    Tch48N8,
    Tch24N1,
    Tch24N4,
    Tch24N8,
}

/// An open traffic circuit.
#[derive(Debug, Clone, Copy, PartialEq, Eq, Structural)]
pub struct CmceCircuit {
    pub ts_created: TdmaTime,
    pub direction: Direction,
    pub ts: u8,
    pub carrier_num: u16,
    pub call_id: u16,
    pub usage: u8,
    pub circuit_mode: CircuitModeType,
    pub comm_type: CommunicationType,
    pub simplex_duplex: bool,
    pub speech_service: Option<u8>,
    pub etee_encrypted: bool,
}

/// Work the circuit manager asks its owner to do.
#[derive(Debug, Clone, Copy, PartialEq, Eq, Structural)]
pub enum CircuitMgrCmd {
    /// Repeat D-SETUP: call id, usage number, carrier, timeslot.
    SendDSetup(u16, u8, u16, u8),
    /// Tell the MSs the circuit was closed.
    SendClose(u16, CmceCircuit),
}

/// Map key of a carrier/timeslot pair.
pub open spec fn slot_key(carrier_num: u16, ts: u8) -> u32 {
    (carrier_num as int * 256 + ts as int) as u32
}

pub open spec fn at_slot(c: CmceCircuit, carrier_num: u16, ts: u8) -> bool {
    c.carrier_num == carrier_num && c.ts == ts
}

/// Some circuit of `s` sits on the slot.
pub open spec fn has_slot(s: Seq<CmceCircuit>, carrier_num: u16, ts: u8) -> bool {
    exists|i: int| 0 <= i < s.len() && #[trigger] at_slot(s[i], carrier_num, ts)
}

/// Some circuit of `s` sits on the slot and carries both directions.
pub open spec fn has_both_slot(s: Seq<CmceCircuit>, carrier_num: u16, ts: u8) -> bool {
    exists|i: int| 0 <= i < s.len() && #[trigger] at_slot(s[i], carrier_num, ts) && s[i].direction == Direction::Both
}

/// Some circuit of `s` uses timeslot `ts` on any carrier.
pub open spec fn has_ts(s: Seq<CmceCircuit>, ts: u8) -> bool {
    exists|i: int| #![trigger s[i]] 0 <= i < s.len() && s[i].ts == ts
}

/// Some circuit of `s` uses timeslot `ts` on any carrier in both directions.
pub open spec fn has_both_ts(s: Seq<CmceCircuit>, ts: u8) -> bool {
    exists|i: int| #![trigger s[i]] 0 <= i < s.len() && s[i].ts == ts && s[i].direction == Direction::Both
}

/// `i` is the first index of `s` that uses timeslot `ts`.
pub open spec fn is_first_ts(s: Seq<CmceCircuit>, ts: u8, i: int) -> bool {
    0 <= i < s.len() && s[i].ts == ts && forall|j: int| 0 <= j < i ==> #[trigger] s[j].ts != ts
}

/// The circuit of `s` on the slot (meaningful when there is exactly one).
pub open spec fn slot_of(s: Seq<CmceCircuit>, carrier_num: u16, ts: u8) -> CmceCircuit {
    s[choose|i: int| 0 <= i < s.len() && #[trigger] at_slot(s[i], carrier_num, ts)]
}

/// No two circuits of `s` share a slot.
pub open spec fn slots_unique(s: Seq<CmceCircuit>) -> bool {
    forall|i: int, j: int|
        0 <= i < s.len() && 0 <= j < s.len() && i != j ==> !(#[trigger] at_slot(s[i], s[j].carrier_num, s[j].ts))
}

/// A simplex circuit older than the expiry limit at `now`.
pub open spec fn expired(c: CmceCircuit, now: TdmaTime) -> bool {
    !c.simplex_duplex && spec_age(c.ts_created, now) > CIRCUIT_EXPIRY_TIMESLOTS
}

/// A downlink circuit whose D-SETUP is due at `now`: in its first frame, or on the
/// late-entry grid.
pub open spec fn setup_due(c: CmceCircuit, now: TdmaTime) -> bool {
    let age = spec_age(c.ts_created, now);
    age < D_SETUP_REPEAT_TIMESLOTS || (age / 4) % (LATE_ENTRY_INTERVAL_TIMESLOTS / 4) == 0
}

/// The circuits of `s` that survive expiry at `now`, in order.
pub open spec fn kept_after_expiry(s: Seq<CmceCircuit>, now: TdmaTime) -> Seq<CmceCircuit>
    decreases s.len(),
{
    if s.len() == 0 {
        s
    } else {
        let rest = kept_after_expiry(s.drop_last(), now);
        if expired(s.last(), now) { rest } else { rest.push(s.last()) }
    }
}

/// The close commands for the circuits of `s` that expire at `now`, in order.
pub open spec fn expiry_closes(s: Seq<CmceCircuit>, now: TdmaTime) -> Seq<CircuitMgrCmd>
    decreases s.len(),
{
    if s.len() == 0 {
        Seq::empty()
    } else {
        let rest = expiry_closes(s.drop_last(), now);
        if expired(s.last(), now) { rest.push(CircuitMgrCmd::SendClose(s.last().call_id, s.last())) } else { rest }
    }
}

/// Every close that expiry sends is for an expired circuit.
proof fn lemma_expiry_closes_expired(s: Seq<CmceCircuit>, now: TdmaTime)
    ensures
        forall|k: int| 0 <= k < expiry_closes(s, now).len() ==> (#[trigger] expiry_closes(s, now)[k] matches CircuitMgrCmd::SendClose(
            _,
            c,
        ) && expired(c, now)),
    decreases s.len(),
{
    if s.len() > 0 {
        lemma_expiry_closes_expired(s.drop_last(), now);
        let ep = expiry_closes(s.drop_last(), now);
        if expired(s.last(), now) {
            let cmd = CircuitMgrCmd::SendClose(s.last().call_id, s.last());
            assert forall|k: int| 0 <= k < ep.push(cmd).len() implies (#[trigger] ep.push(cmd)[k] matches CircuitMgrCmd::SendClose(
                _,
                c,
            ) && expired(c, now)) by {
                if k < ep.len() {
                    assert(ep.push(cmd)[k] == ep[k]);
                }
            }
        }
    }
}

/// Full-duplex circuits never expire: whatever the time, expiry keeps every full-duplex
/// circuit of `s` and sends no close for it.
pub proof fn lemma_duplex_never_expires(s: Seq<CmceCircuit>, now: TdmaTime, i: int)
    requires
        0 <= i < s.len(),
        s[i].simplex_duplex,
    ensures
        kept_after_expiry(s, now).contains(s[i]),
        !expiry_closes(s, now).contains(CircuitMgrCmd::SendClose(s[i].call_id, s[i])),
    decreases s.len(),
{
    lemma_expiry_closes_expired(s, now);
    let p = s.drop_last();
    if i < s.len() - 1 {
        assert(p[i] == s[i]);
        lemma_duplex_never_expires(p, now, i);
        let kp = kept_after_expiry(p, now);
        let j = choose|j: int| 0 <= j < kp.len() && kp[j] == s[i];
        if !expired(s.last(), now) {
            assert(kp.push(s.last())[j] == s[i]);
        }
    } else {
        assert(!expired(s.last(), now));
        let kp = kept_after_expiry(p, now);
        assert(kp.push(s.last())[kp.len() as int] == s[i]);
    }
}

/// The D-SETUP repeats due at `now` for the circuits of `s`, in order.
pub open spec fn setup_repeats(s: Seq<CmceCircuit>, now: TdmaTime) -> Seq<CircuitMgrCmd>
    decreases s.len(),
{
    if s.len() == 0 {
        Seq::empty()
    } else {
        let rest = setup_repeats(s.drop_last(), now);
        let c = s.last();
        if setup_due(c, now) { rest.push(CircuitMgrCmd::SendDSetup(c.call_id, c.usage, c.carrier_num, c.ts)) } else { rest }
    }
}

/// Some circuit of `s` on the slot expires at `now`.
pub open spec fn closes_slot(s: Seq<CmceCircuit>, now: TdmaTime, carrier_num: u16, ts: u8) -> bool {
    exists|i: int| 0 <= i < s.len() && #[trigger] at_slot(s[i], carrier_num, ts) && expired(s[i], now)
}

/// Candidate carriers searched for a free slot: those of the downlink circuits, then those of
/// the uplink-only circuits, then carrier 0.
pub open spec fn candidate_carriers(dl: Seq<CmceCircuit>, ul: Seq<CmceCircuit>) -> Seq<u16> {
    dl.map_values(|c: CmceCircuit| c.carrier_num) + ul.map_values(|c: CmceCircuit| c.carrier_num) + seq![0u16]
}

pub struct CircuitMgr {
    pub dltime: TdmaTime,
    /// Downlink and downlink+uplink circuits.
    pub dl: Vec<CmceCircuit>,
    /// Uplink-only circuits, with no recipients on this cell.
    pub ul_only: Vec<CmceCircuit>,
    /// Downlink blocks queued per carrier/timeslot.
    pub tx_data: HashMap<u32, VecDeque<Vec<u8>>>,
    /// 10-bit call identifier handed out next; 0 is reserved.
    pub next_call_identifier: u16,
    /// 6-bit usage marker handed out next; 0..=3 are reserved.
    pub next_usage_number: u8,
}

impl CircuitMgr {
    /// Queued downlink blocks per slot key.
    pub open spec fn tx_view(&self) -> Map<u32, Seq<Vec<u8>>> {
        self.tx_data@.map_values(|q: VecDeque<Vec<u8>>| q@)
    }

    /// Downlink blocks queued on a slot, oldest first.
    pub open spec fn queue(&self, carrier_num: u16, ts: u8) -> Seq<Vec<u8>> {
        let k = slot_key(carrier_num, ts);
        if self.tx_view().contains_key(k) { self.tx_view()[k] } else { Seq::empty() }
    }

    pub open spec fn spec_next_call_id(&self) -> u16 {
        self.next_call_identifier
    }

    pub open spec fn spec_next_usage(&self) -> u8 {
        self.next_usage_number
    }

    pub open spec fn dl_active(&self, carrier_num: u16, ts: u8) -> bool {
        has_slot(self.dl@, carrier_num, ts)
    }

    pub open spec fn ul_active(&self, carrier_num: u16, ts: u8) -> bool {
        has_slot(self.ul_only@, carrier_num, ts) || has_both_slot(self.dl@, carrier_num, ts)
    }

    /// A circuit in direction `dir` could be opened on the slot.
    pub open spec fn slot_free(&self, dir: Direction, carrier_num: u16, ts: u8) -> bool {
        match dir {
            Direction::Dl => !self.dl_active(carrier_num, ts),
            Direction::Ul => !self.ul_active(carrier_num, ts),
            Direction::Both => !self.dl_active(carrier_num, ts) && !self.ul_active(carrier_num, ts),
        }
    }

    /// First free slot for `dir` among timeslots 2..=4 of the carriers `cands`, in order.
    pub open spec fn first_free(&self, cands: Seq<u16>, dir: Direction) -> Option<CarrierSlot>
        decreases cands.len(),
    {
        if cands.len() == 0 {
            None
        } else if self.slot_free(dir, cands[0], 2) {
            Some(CarrierSlot { carrier_num: cands[0], ts: 2 })
        } else if self.slot_free(dir, cands[0], 3) {
            Some(CarrierSlot { carrier_num: cands[0], ts: 3 })
        } else if self.slot_free(dir, cands[0], 4) {
            Some(CarrierSlot { carrier_num: cands[0], ts: 4 })
        } else {
            self.first_free(cands.drop_first(), dir)
        }
    }

    /// The slot `allocate_circuit` picks for `dir`.
    pub open spec fn free_slot(&self, dir: Direction) -> Option<CarrierSlot> {
        self.first_free(candidate_carriers(self.dl@, self.ul_only@), dir)
    }

    /// `other` holds the same circuits, queued blocks, time and counters as `self`.
    pub open spec fn same_views(&self, other: CircuitMgr) -> bool {
        &&& other.dltime == self.dltime
        &&& other.dl@ == self.dl@
        &&& other.ul_only@ == self.ul_only@
        &&& other.tx_view() == self.tx_view()
        &&& other.spec_next_call_id() == self.spec_next_call_id()
        &&& other.spec_next_usage() == self.spec_next_usage()
    }

    /// Number of timeslots among 2..`ts` of the main carrier free in both directions.
    pub open spec fn free_count_below(&self, ts: u8) -> nat
        decreases ts,
    {
        if ts <= 2 {
            0
        } else {
            self.free_count_below((ts - 1) as u8) + if self.slot_free(Direction::Both, 0, (ts - 1) as u8) { 1nat } else { 0nat }
        }
    }

    /// Number of traffic timeslots (2..=4) of the main carrier free in both directions.
    pub open spec fn spec_free_slot_count(&self) -> nat {
        self.free_count_below(5)
    }

    /// (downlink usage, uplink usage) on a slot.
    pub open spec fn usage_slot(&self, carrier_num: u16, ts: u8) -> (Option<u8>, Option<u8>) {
        let dl = if self.dl_active(carrier_num, ts) { Some(slot_of(self.dl@, carrier_num, ts).usage) } else { None };
        let ul = if has_both_slot(self.dl@, carrier_num, ts) {
            dl
        } else if has_slot(self.ul_only@, carrier_num, ts) {
            Some(slot_of(self.ul_only@, carrier_num, ts).usage)
        } else {
            None
        };
        (dl, ul)
    }

    /// The call identifier that follows `id`.
    pub open spec fn call_id_after(id: u16) -> u16 {
        if id + 1 > MAX_CALL_IDENTIFIER { 1 } else { (id + 1) as u16 }
    }

    /// The usage marker that follows `u`.
    pub open spec fn usage_after(u: u8) -> u8 {
        if u + 1 > MAX_USAGE_NUMBER { MIN_USAGE_NUMBER } else { (u + 1) as u8 }
    }

    /// Circuits occupy distinct slots, directions match the list they are in, an uplink-only
    /// circuit never shares a slot with a two-way one, blocks are only queued on open downlink
    /// slots, and the counters stay in their ranges.
    pub closed spec fn wf(&self) -> bool {
        &&& slots_unique(self.dl@)
        &&& slots_unique(self.ul_only@)
        &&& forall|i: int| 0 <= i < self.dl@.len() ==> #[trigger] self.dl@[i].direction != Direction::Ul
        &&& forall|i: int| 0 <= i < self.ul_only@.len() ==> #[trigger] self.ul_only@[i].direction == Direction::Ul
        &&& forall|i: int| 0 <= i < self.ul_only@.len() ==> !has_both_slot(
            self.dl@,
            #[trigger] self.ul_only@[i].carrier_num,
            self.ul_only@[i].ts,
        )
        &&& forall|c: u16, t: u8| #[trigger] self.queue(c, t).len() > 0 ==> self.dl_active(c, t)
        &&& 1 <= self.next_call_identifier <= MAX_CALL_IDENTIFIER
        &&& MIN_USAGE_NUMBER <= self.next_usage_number <= MAX_USAGE_NUMBER
    }

    pub fn new() -> (m: Self)
        ensures
            m.wf(),
            m.dltime == (TdmaTime { h: 0, m: 1, f: 1, t: 1 }),
            m.dl@ == Seq::<CmceCircuit>::empty(),
            m.ul_only@ == Seq::<CmceCircuit>::empty(),
            m.tx_view() == Map::<u32, Seq<Vec<u8>>>::empty(),
            m.spec_next_call_id() == 4,
            m.spec_next_usage() == 4,
    {
        let m = CircuitMgr {
            dltime: TdmaTime::start(),
            dl: Vec::new(),
            ul_only: Vec::new(),
            tx_data: HashMap::new(),
            next_call_identifier: 4,
            next_usage_number: 4,
        };
        assert(m.tx_view() =~= Map::<u32, Seq<Vec<u8>>>::empty());
        m
    }

    fn key(carrier_num: u16, ts: u8) -> (k: u32)
        ensures
            k == slot_key(carrier_num, ts),
    {
        carrier_num as u32 * 256 + ts as u32
    }
}

proof fn lemma_slot_key_injective(c1: u16, t1: u8, c2: u16, t2: u8)
    ensures
        slot_key(c1, t1) == slot_key(c2, t2) ==> c1 == c2 && t1 == t2,
{
}

impl CircuitMgr {
    /// (downlink active, uplink active) on the slot.
    pub fn is_active_slot(&self, carrier_num: u16, ts: u8) -> (r: (bool, bool))
        requires
            self.wf(),
        ensures
            r == (self.dl_active(carrier_num, ts), self.ul_active(carrier_num, ts)),
    {
        match find_slot(&self.dl, carrier_num, ts) {
            Some(i) => {
                if self.dl[i].direction == Direction::Both {
                    (true, true)
                } else {
                    assert(!has_both_slot(self.dl@, carrier_num, ts));
                    (true, find_slot(&self.ul_only, carrier_num, ts).is_some())
                }
            },
            None => (false, find_slot(&self.ul_only, carrier_num, ts).is_some()),
        }
    }

    /// (downlink active, uplink active) on timeslot `ts` of any carrier.
    pub fn is_active(&self, ts: u8) -> (r: (bool, bool))
        ensures
            r == (has_ts(self.dl@, ts), has_ts(self.ul_only@, ts) || has_both_ts(self.dl@, ts)),
    {
        let (dl_first, dl_both) = find_ts(&self.dl, ts);
        let (ul_first, _) = find_ts(&self.ul_only, ts);
        (dl_first.is_some(), ul_first.is_some() || dl_both)
    }

    /// Whether a circuit carries direction `dir` on the slot; false for `Both`, which names
    /// no single direction.
    pub fn is_active_dir_slot(&self, carrier_num: u16, ts: u8, dir: Direction) -> (r: bool)
        requires
            self.wf(),
        ensures
            r == match dir {
                Direction::Dl => self.dl_active(carrier_num, ts),
                Direction::Ul => self.ul_active(carrier_num, ts),
                Direction::Both => false,
            },
    {
        match dir {
            Direction::Dl => find_slot(&self.dl, carrier_num, ts).is_some(),
            Direction::Ul => self.is_active_slot(carrier_num, ts).1,
            Direction::Both => false,
        }
    }

    /// Whether a circuit carries direction `dir` on timeslot `ts` of any carrier; false for
    /// `Both`.
    pub fn is_active_dir(&self, ts: u8, dir: Direction) -> (r: bool)
        ensures
            r == match dir {
                Direction::Dl => has_ts(self.dl@, ts),
                Direction::Ul => has_ts(self.ul_only@, ts) || has_both_ts(self.dl@, ts),
                Direction::Both => false,
            },
    {
        match dir {
            Direction::Dl => find_ts(&self.dl, ts).0.is_some(),
            Direction::Ul => self.is_active(ts).1,
            Direction::Both => false,
        }
    }

    /// (downlink usage, uplink usage) of the circuits on the slot.
    pub fn get_usage_slot(&self, carrier_num: u16, ts: u8) -> (r: (Option<u8>, Option<u8>))
        requires
            self.wf(),
        ensures
            r == self.usage_slot(carrier_num, ts),
    {
        let (dl_usage, dl_is_both) = match find_slot(&self.dl, carrier_num, ts) {
            Some(i) => {
                proof {
                    let k = choose|k: int| 0 <= k < self.dl@.len() && #[trigger] at_slot(self.dl@[k], carrier_num, ts);
                    assert(at_slot(self.dl@[k], self.dl@[i as int].carrier_num, self.dl@[i as int].ts));
                    assert(k == i);
                    if has_both_slot(self.dl@, carrier_num, ts) {
                        let b = choose|b: int| 0 <= b < self.dl@.len() && #[trigger] at_slot(self.dl@[b], carrier_num, ts)
                            && self.dl@[b].direction == Direction::Both;
                        assert(at_slot(self.dl@[b], self.dl@[i as int].carrier_num, self.dl@[i as int].ts));
                    }
                }
                (Some(self.dl[i].usage), self.dl[i].direction == Direction::Both)
            },
            None => (None, false),
        };
        let ul_usage = if dl_is_both {
            dl_usage
        } else {
            match find_slot(&self.ul_only, carrier_num, ts) {
                Some(j) => {
                    proof {
                        let k = choose|k: int| 0 <= k < self.ul_only@.len() && #[trigger] at_slot(self.ul_only@[k], carrier_num, ts);
                        assert(at_slot(self.ul_only@[k], self.ul_only@[j as int].carrier_num, self.ul_only@[j as int].ts));
                    }
                    Some(self.ul_only[j].usage)
                },
                None => None,
            }
        };
        (dl_usage, ul_usage)
    }

    /// Usage of the circuits on timeslot `ts`, on the carrier of the first downlink circuit
    /// using it, else of the first uplink-only one.
    pub fn get_usage(&self, ts: u8) -> (r: (Option<u8>, Option<u8>))
        requires
            self.wf(),
        ensures
            has_ts(self.dl@, ts) ==> exists|i: int| #[trigger] is_first_ts(self.dl@, ts, i)
                && r == self.usage_slot(self.dl@[i].carrier_num, ts),
            !has_ts(self.dl@, ts) && has_ts(self.ul_only@, ts) ==> exists|i: int| #[trigger] is_first_ts(self.ul_only@, ts, i)
                && r == self.usage_slot(self.ul_only@[i].carrier_num, ts),
            !has_ts(self.dl@, ts) && !has_ts(self.ul_only@, ts) ==> r == (None::<u8>, None::<u8>),
    {
        match find_ts(&self.dl, ts).0 {
            Some(i) => self.get_usage_slot(self.dl[i].carrier_num, ts),
            None => match find_ts(&self.ul_only, ts).0 {
                Some(j) => self.get_usage_slot(self.ul_only[j].carrier_num, ts),
                None => (None, None),
            },
        }
    }

    /// Hand out the next call identifier (wrapping from 0x3FF to 1).
    pub fn get_next_call_id(&mut self) -> (id: u16)
        requires
            old(self).wf(),
        ensures
            final(self).wf(),
            id == old(self).spec_next_call_id(),
            final(self).spec_next_call_id() == Self::call_id_after(id),
            final(self).spec_next_usage() == old(self).spec_next_usage(),
            final(self).dl@ == old(self).dl@,
            final(self).ul_only@ == old(self).ul_only@,
            final(self).tx_view() == old(self).tx_view(),
            final(self).dltime == old(self).dltime,
    {
        let call_id = self.next_call_identifier;
        self.next_call_identifier = self.next_call_identifier + 1;
        if self.next_call_identifier > MAX_CALL_IDENTIFIER {
            self.next_call_identifier = 1;
        }
        proof {
            assert forall|c: u16, t: u8| #[trigger] self.queue(c, t).len() > 0 implies self.dl_active(c, t) by {
                assert(old(self).queue(c, t) == self.queue(c, t));
            }
        }
        call_id
    }

    /// Hand out the next usage marker: successive calls cycle through 4..=31.
    pub fn get_next_usage_number(&mut self) -> (usage: u8)
        requires
            old(self).wf(),
        ensures
            final(self).wf(),
            MIN_USAGE_NUMBER <= usage <= MAX_USAGE_NUMBER,
            usage == old(self).spec_next_usage(),
            final(self).spec_next_usage() == Self::usage_after(usage),
            final(self).spec_next_call_id() == old(self).spec_next_call_id(),
            final(self).dl@ == old(self).dl@,
            final(self).ul_only@ == old(self).ul_only@,
            final(self).tx_view() == old(self).tx_view(),
            final(self).dltime == old(self).dltime,
    {
        let usage = self.next_usage_number;
        self.next_usage_number = self.next_usage_number + 1;
        if self.next_usage_number > MAX_USAGE_NUMBER {
            self.next_usage_number = MIN_USAGE_NUMBER;
        }
        proof {
            assert forall|c: u16, t: u8| #[trigger] self.queue(c, t).len() > 0 implies self.dl_active(c, t) by {
                assert(old(self).queue(c, t) == self.queue(c, t));
            }
        }
        usage
    }
}

/// The circuit `make_circuit` builds.
pub open spec fn made_circuit(
    now: TdmaTime,
    dir: Direction,
    slot: CarrierSlot,
    call_id: u16,
    usage: u8,
    comm_type: CommunicationType,
    simplex_duplex: bool,
) -> CmceCircuit {
    CmceCircuit {
        ts_created: now,
        direction: dir,
        ts: slot.ts,
        carrier_num: slot.carrier_num,
        call_id,
        usage,
        circuit_mode: CircuitModeType::TchS,
        comm_type,
        simplex_duplex,
        speech_service: Some(0),
        etee_encrypted: false,
    }
}

pub open spec fn includes_dl(dir: Direction) -> bool {
    dir == Direction::Dl || dir == Direction::Both
}

pub open spec fn includes_ul(dir: Direction) -> bool {
    dir == Direction::Ul || dir == Direction::Both
}

/// `new` is `old` after closing the `dir` circuit on the slot, with result `r`.
pub open spec fn slot_closed(
    old: CircuitMgr,
    new: CircuitMgr,
    dir: Direction,
    carrier_num: u16,
    ts: u8,
    r: Result<CmceCircuit, CircuitErr>,
) -> bool {
    &&& new.dltime == old.dltime
    &&& new.spec_next_call_id() == old.spec_next_call_id()
    &&& new.spec_next_usage() == old.spec_next_usage()
    &&& if includes_dl(dir) {
        &&& new.tx_view() == old.tx_view().remove(slot_key(carrier_num, ts))
        &&& new.ul_only@ == old.ul_only@
        &&& if old.dl_active(carrier_num, ts) {
            exists|i: int|
                0 <= i < old.dl@.len() && #[trigger] at_slot(old.dl@[i], carrier_num, ts) && r == Ok::<
                    CmceCircuit,
                    CircuitErr,
                >(old.dl@[i]) && new.dl@ == old.dl@.remove(i)
        } else {
            r == Err::<CmceCircuit, CircuitErr>(CircuitErr::CircuitNotActive) && new.dl@ == old.dl@
        }
    } else {
        &&& new.tx_view() == old.tx_view()
        &&& new.dl@ == old.dl@
        &&& if has_slot(old.ul_only@, carrier_num, ts) {
            exists|i: int|
                0 <= i < old.ul_only@.len() && #[trigger] at_slot(old.ul_only@[i], carrier_num, ts) && r == Ok::<
                    CmceCircuit,
                    CircuitErr,
                >(old.ul_only@[i]) && new.ul_only@ == old.ul_only@.remove(i)
        } else {
            r == Err::<CmceCircuit, CircuitErr>(CircuitErr::CircuitNotActive) && new.ul_only@ == old.ul_only@
        }
    }
}

/// `new` is `old` after closing the `dir` circuit on timeslot `ts` of the carrier of the first
/// circuit (downlink list first) using it, with result `r`.
#[verifier::opaque]
pub open spec fn circuit_closed_on_ts(
    old: CircuitMgr,
    new: CircuitMgr,
    dir: Direction,
    ts: u8,
    r: Result<CmceCircuit, CircuitErr>,
) -> bool {
    &&& has_ts(old.dl@, ts) ==> exists|i: int| #[trigger] is_first_ts(old.dl@, ts, i)
        && slot_closed(old, new, dir, old.dl@[i].carrier_num, ts, r)
    &&& !has_ts(old.dl@, ts) && has_ts(old.ul_only@, ts) ==> exists|i: int| #[trigger] is_first_ts(old.ul_only@, ts, i)
        && slot_closed(old, new, dir, old.ul_only@[i].carrier_num, ts, r)
    &&& !has_ts(old.dl@, ts) && !has_ts(old.ul_only@, ts) ==> r == Err::<CmceCircuit, CircuitErr>(
        CircuitErr::CircuitNotActive,
    ) && new == old
}

proof fn lemma_first_free_is_free(m: CircuitMgr, cands: Seq<u16>, dir: Direction)
    ensures
        m.first_free(cands, dir) matches Some(s) ==> m.slot_free(dir, s.carrier_num, s.ts) && 2 <= s.ts <= 4,
    decreases cands.len(),
{
    if cands.len() > 0 {
        lemma_first_free_is_free(m, cands.drop_first(), dir);
    }
}

proof fn lemma_kept_members(s: Seq<CmceCircuit>, now: TdmaTime)
    ensures
        forall|j: int| 0 <= j < kept_after_expiry(s, now).len() ==> exists|k: int| 0 <= k < s.len()
            && #[trigger] kept_after_expiry(s, now)[j] == s[k] && !expired(s[k], now),
        forall|k: int| 0 <= k < s.len() && !expired(s[k], now) ==> has_slot(
            kept_after_expiry(s, now),
            #[trigger] s[k].carrier_num,
            s[k].ts,
        ),
    decreases s.len(),
{
    if s.len() > 0 {
        let p = s.drop_last();
        lemma_kept_members(p, now);
        let kp = kept_after_expiry(p, now);
        let ks = kept_after_expiry(s, now);
        assert forall|j: int| 0 <= j < ks.len() implies exists|k: int| 0 <= k < s.len()
            && #[trigger] ks[j] == s[k] && !expired(s[k], now) by {
            if j < kp.len() {
                let k = choose|k: int| 0 <= k < p.len() && #[trigger] kp[j] == p[k] && !expired(p[k], now);
                assert(ks[j] == s[k]);
            } else {
                assert(ks[j] == s[s.len() - 1]);
            }
        }
        assert forall|k: int| 0 <= k < s.len() && !expired(s[k], now) implies has_slot(
            ks,
            #[trigger] s[k].carrier_num,
            s[k].ts,
        ) by {
            if k < p.len() {
                assert(p[k] == s[k]);
                assert(has_slot(kp, p[k].carrier_num, p[k].ts));
                let w = choose|w: int| 0 <= w < kp.len() && #[trigger] at_slot(kp[w], p[k].carrier_num, p[k].ts);
                assert(ks[w] == kp[w]);
                assert(at_slot(ks[w], s[k].carrier_num, s[k].ts));
            } else {
                assert(at_slot(ks[ks.len() - 1], s[k].carrier_num, s[k].ts));
            }
        }
    }
}

proof fn lemma_kept_unique(s: Seq<CmceCircuit>, now: TdmaTime)
    requires
        slots_unique(s),
    ensures
        slots_unique(kept_after_expiry(s, now)),
    decreases s.len(),
{
    if s.len() > 0 {
        let p = s.drop_last();
        assert(slots_unique(p)) by {
            assert forall|i: int, j: int| 0 <= i < p.len() && 0 <= j < p.len() && i != j implies !(#[trigger] at_slot(
                p[i],
                p[j].carrier_num,
                p[j].ts,
            )) by {
                assert(p[i] == s[i] && p[j] == s[j]);
            }
        }
        lemma_kept_unique(p, now);
        lemma_kept_members(p, now);
        let kp = kept_after_expiry(p, now);
        let ks = kept_after_expiry(s, now);
        let last = s[s.len() - 1];
        if !expired(last, now) {
            assert forall|i: int, j: int| 0 <= i < ks.len() && 0 <= j < ks.len() && i != j implies !(#[trigger] at_slot(
                ks[i],
                ks[j].carrier_num,
                ks[j].ts,
            )) by {
                if i < kp.len() && j < kp.len() {
                    assert(ks[i] == kp[i] && ks[j] == kp[j]);
                } else if i < kp.len() {
                    let k = choose|k: int| 0 <= k < p.len() && #[trigger] kp[i] == p[k] && !expired(p[k], now);
                    assert(ks[i] == s[k] && ks[j] == s[s.len() - 1]);
                } else {
                    let k = choose|k: int| 0 <= k < p.len() && #[trigger] kp[j] == p[k] && !expired(p[k], now);
                    assert(ks[j] == s[k] && ks[i] == s[s.len() - 1]);
                }
            }
        }
    }
}

impl CircuitMgr {
    fn slot_is_free(&self, dir: Direction, carrier_num: u16, ts: u8) -> (r: bool)
        requires
            self.wf(),
        ensures
            r == self.slot_free(dir, carrier_num, ts),
    {
        let (dl_active, ul_active) = self.is_active_slot(carrier_num, ts);
        match dir {
            Direction::Dl => !dl_active,
            Direction::Ul => !ul_active,
            Direction::Both => !dl_active && !ul_active,
        }
    }

    /// The first free slot for `dir`, searching timeslots 2..=4 on the carriers in use, then
    /// on carrier 0.
    fn get_free_slot(&self, dir: Direction) -> (r: Result<CarrierSlot, CircuitErr>)
        requires
            self.wf(),
        ensures
            match r {
                Ok(s) => self.free_slot(dir) == Some(s),
                Err(e) => e == CircuitErr::NoCircuitFree && self.free_slot(dir) is None,
            },
    {
        let mut cands: Vec<u16> = Vec::new();
        let mut i: usize = 0;
        while i < self.dl.len()
            invariant
                i <= self.dl@.len(),
                cands@ == self.dl@.take(i as int).map_values(|c: CmceCircuit| c.carrier_num),
            decreases self.dl@.len() - i,
        {
            cands.push(self.dl[i].carrier_num);
            i = i + 1;
            assert(cands@ =~= self.dl@.take(i as int).map_values(|c: CmceCircuit| c.carrier_num));
        }
        let mut j: usize = 0;
        while j < self.ul_only.len()
            invariant
                j <= self.ul_only@.len(),
                cands@ == self.dl@.map_values(|c: CmceCircuit| c.carrier_num) + self.ul_only@.take(j as int).map_values(
                    |c: CmceCircuit| c.carrier_num,
                ),
            decreases self.ul_only@.len() - j,
        {
            cands.push(self.ul_only[j].carrier_num);
            j = j + 1;
            assert(cands@ =~= self.dl@.map_values(|c: CmceCircuit| c.carrier_num) + self.ul_only@.take(j as int).map_values(
                |c: CmceCircuit| c.carrier_num,
            ));
        }
        cands.push(0);
        assert(self.dl@.take(self.dl@.len() as int) =~= self.dl@);
        assert(self.ul_only@.take(self.ul_only@.len() as int) =~= self.ul_only@);
        assert(cands@ =~= candidate_carriers(self.dl@, self.ul_only@));
        let mut k: usize = 0;
        assert(cands@.subrange(0, cands@.len() as int) =~= cands@);
        while k < cands.len()
            invariant
                self.wf(),
                cands@ == candidate_carriers(self.dl@, self.ul_only@),
                k <= cands@.len(),
                self.free_slot(dir) == self.first_free(cands@.subrange(k as int, cands@.len() as int), dir),
            decreases cands@.len() - k,
        {
            let c = cands[k];
            let ghost rest = cands@.subrange(k as int, cands@.len() as int);
            assert(rest[0] == c);
            assert(rest.drop_first() =~= cands@.subrange(k + 1, cands@.len() as int));
            if self.slot_is_free(dir, c, 2) {
                return Ok(CarrierSlot { carrier_num: c, ts: 2 });
            }
            if self.slot_is_free(dir, c, 3) {
                return Ok(CarrierSlot { carrier_num: c, ts: 3 });
            }
            if self.slot_is_free(dir, c, 4) {
                return Ok(CarrierSlot { carrier_num: c, ts: 4 });
            }
            k = k + 1;
        }
        Err(CircuitErr::NoCircuitFree)
    }

    fn make_circuit(
        &self,
        dir: Direction,
        slot: CarrierSlot,
        call_id: u16,
        usage: u8,
        comm_type: CommunicationType,
        simplex_duplex: bool,
    ) -> (c: CmceCircuit)
        ensures
            c == made_circuit(self.dltime, dir, slot, call_id, usage, comm_type, simplex_duplex),
    {
        CmceCircuit {
            ts_created: self.dltime,
            direction: dir,
            ts: slot.ts,
            carrier_num: slot.carrier_num,
            call_id,
            usage,
            circuit_mode: CircuitModeType::TchS,
            comm_type,
            simplex_duplex,
            speech_service: Some(0),
            etee_encrypted: false,
        }
    }

    /// Record a new circuit in direction `dir`, unless its slot is taken in that direction.
    fn open_circuit(&mut self, dir: Direction, circuit: CmceCircuit) -> (r: Result<CmceCircuit, CircuitErr>)
        requires
            old(self).wf(),
            circuit.direction == dir,
        ensures
            final(self).wf(),
            final(self).dltime == old(self).dltime,
            final(self).spec_next_call_id() == old(self).spec_next_call_id(),
            final(self).spec_next_usage() == old(self).spec_next_usage(),
            final(self).tx_view() == old(self).tx_view(),
            ({
                let busy = (includes_dl(dir) && old(self).dl_active(circuit.carrier_num, circuit.ts)) || (includes_ul(
                    dir,
                ) && old(self).ul_active(circuit.carrier_num, circuit.ts));
                &&& busy ==> r == Err::<CmceCircuit, CircuitErr>(CircuitErr::CircuitAlreadyInUse)
                    && final(self).dl@ == old(self).dl@ && final(self).ul_only@ == old(self).ul_only@
                &&& !busy ==> r == Ok::<CmceCircuit, CircuitErr>(circuit) && if includes_dl(dir) {
                    final(self).dl@ == old(self).dl@.push(circuit) && final(self).ul_only@ == old(self).ul_only@
                } else {
                    final(self).ul_only@ == old(self).ul_only@.push(circuit) && final(self).dl@ == old(self).dl@
                }
            }),
    {
        let carrier_num = circuit.carrier_num;
        let ts = circuit.ts;
        let (dl_active, ul_active) = self.is_active_slot(carrier_num, ts);
        let inc_dl = dir == Direction::Dl || dir == Direction::Both;
        let inc_ul = dir == Direction::Ul || dir == Direction::Both;
        if inc_dl && dl_active {
            return Err(CircuitErr::CircuitAlreadyInUse);
        }
        if inc_ul && ul_active {
            return Err(CircuitErr::CircuitAlreadyInUse);
        }
        let ghost old_dl = self.dl@;
        let ghost old_ul = self.ul_only@;
        if inc_dl {
            let key = Self::key(carrier_num, ts);
            let pending = match self.tx_data.get(&key) {
                Some(q) => q.len() > 0,
                None => false,
            };
            if pending {
                assert(self.queue(carrier_num, ts).len() > 0);
                self.tx_data.remove(&key);
            }
            self.dl.push(circuit);
            proof {
                assert forall|i: int, j: int|
                    0 <= i < self.dl@.len() && 0 <= j < self.dl@.len() && i != j implies !(#[trigger] at_slot(
                    self.dl@[i],
                    self.dl@[j].carrier_num,
                    self.dl@[j].ts,
                )) by {
                    if i == old_dl.len() {
                        if at_slot(self.dl@[i], self.dl@[j].carrier_num, self.dl@[j].ts) {
                            assert(at_slot(old_dl[j], carrier_num, ts));
                        }
                    } else if j == old_dl.len() {
                        if at_slot(self.dl@[i], self.dl@[j].carrier_num, self.dl@[j].ts) {
                            assert(at_slot(old_dl[i], carrier_num, ts));
                        }
                    } else {
                        assert(self.dl@[i] == old_dl[i] && self.dl@[j] == old_dl[j]);
                    }
                }
                assert forall|i: int| 0 <= i < self.ul_only@.len() implies !has_both_slot(
                    self.dl@,
                    #[trigger] self.ul_only@[i].carrier_num,
                    self.ul_only@[i].ts,
                ) by {
                    let u = self.ul_only@[i];
                    assert(!has_both_slot(old_dl, u.carrier_num, u.ts));
                    if has_both_slot(self.dl@, u.carrier_num, u.ts) {
                        let b = choose|b: int| 0 <= b < self.dl@.len() && #[trigger] at_slot(self.dl@[b], u.carrier_num, u.ts)
                            && self.dl@[b].direction == Direction::Both;
                        if b < old_dl.len() {
                            assert(at_slot(old_dl[b], u.carrier_num, u.ts));
                        } else {
                            assert(self.dl@[b] == circuit);
                            assert(old_ul[i] == u);
                            assert(at_slot(old_ul[i], carrier_num, ts));
                        }
                    }
                }
                assert forall|c: u16, t: u8| #[trigger] self.queue(c, t).len() > 0 implies self.dl_active(c, t) by {
                    assert(old(self).queue(c, t) == self.queue(c, t));
                    let w = choose|w: int| 0 <= w < old_dl.len() && #[trigger] at_slot(old_dl[w], c, t);
                    assert(at_slot(self.dl@[w], c, t));
                }
            }
        } else {
            self.ul_only.push(circuit);
            proof {
                assert forall|i: int, j: int|
                    0 <= i < self.ul_only@.len() && 0 <= j < self.ul_only@.len() && i != j implies !(#[trigger] at_slot(
                    self.ul_only@[i],
                    self.ul_only@[j].carrier_num,
                    self.ul_only@[j].ts,
                )) by {
                    if i == old_ul.len() {
                        if at_slot(self.ul_only@[i], self.ul_only@[j].carrier_num, self.ul_only@[j].ts) {
                            assert(at_slot(old_ul[j], carrier_num, ts));
                        }
                    } else if j == old_ul.len() {
                        if at_slot(self.ul_only@[i], self.ul_only@[j].carrier_num, self.ul_only@[j].ts) {
                            assert(at_slot(old_ul[i], carrier_num, ts));
                        }
                    } else {
                        assert(self.ul_only@[i] == old_ul[i] && self.ul_only@[j] == old_ul[j]);
                    }
                }
                assert forall|i: int| 0 <= i < self.ul_only@.len() implies !has_both_slot(
                    self.dl@,
                    #[trigger] self.ul_only@[i].carrier_num,
                    self.ul_only@[i].ts,
                ) by {
                    if i < old_ul.len() {
                        assert(self.ul_only@[i] == old_ul[i]);
                    }
                }
                assert forall|c: u16, t: u8| #[trigger] self.queue(c, t).len() > 0 implies self.dl_active(c, t) by {
                    assert(old(self).queue(c, t) == self.queue(c, t));
                }
            }
        }
        assert(self.tx_view() =~= old(self).tx_view());
        Ok(circuit)
    }
}

impl CircuitMgr {
    /// Open a circuit in direction `dir` on the first free slot, with a fresh call identifier
    /// and usage marker.
    pub fn allocate_circuit(&mut self, dir: Direction, comm_type: CommunicationType, simplex_duplex: bool) -> (r: Result<
        CmceCircuit,
        CircuitErr,
    >)
        requires
            old(self).wf(),
        ensures
            final(self).wf(),
            final(self).dltime == old(self).dltime,
            final(self).tx_view() == old(self).tx_view(),
            match r {
                Ok(c) => {
                    &&& old(self).free_slot(dir) == Some(CarrierSlot { carrier_num: c.carrier_num, ts: c.ts })
                    &&& c == made_circuit(
                        old(self).dltime,
                        dir,
                        CarrierSlot { carrier_num: c.carrier_num, ts: c.ts },
                        old(self).spec_next_call_id(),
                        old(self).spec_next_usage(),
                        comm_type,
                        simplex_duplex,
                    )
                    &&& final(self).spec_next_call_id() == Self::call_id_after(old(self).spec_next_call_id())
                    &&& final(self).spec_next_usage() == Self::usage_after(old(self).spec_next_usage())
                    &&& includes_dl(dir) ==> final(self).dl@ == old(self).dl@.push(c) && final(self).ul_only@
                        == old(self).ul_only@
                    &&& !includes_dl(dir) ==> final(self).ul_only@ == old(self).ul_only@.push(c) && final(self).dl@
                        == old(self).dl@
                },
                Err(e) => {
                    &&& e == CircuitErr::NoCircuitFree
                    &&& old(self).free_slot(dir) is None
                    &&& final(self).dl@ == old(self).dl@
                    &&& final(self).ul_only@ == old(self).ul_only@
                    &&& final(self).spec_next_call_id() == old(self).spec_next_call_id()
                    &&& final(self).spec_next_usage() == old(self).spec_next_usage()
                },
            },
    {
        let slot = match self.get_free_slot(dir) {
            Ok(slot) => slot,
            Err(e) => return Err(e),
        };
        proof {
            lemma_first_free_is_free(*self, candidate_carriers(self.dl@, self.ul_only@), dir);
        }
        let call_id = self.get_next_call_id();
        let usage = self.get_next_usage_number();
        let circuit = self.make_circuit(dir, slot, call_id, usage, comm_type, simplex_duplex);
        self.open_circuit(dir, circuit)
    }

    /// Open another circuit for call `call_id` in direction `dir` on the first free slot, with
    /// a fresh usage marker (the second leg of a duplex individual call).
    pub fn allocate_circuit_for_call(
        &mut self,
        call_id: u16,
        dir: Direction,
        comm_type: CommunicationType,
        simplex_duplex: bool,
    ) -> (r: Result<CmceCircuit, CircuitErr>)
        requires
            old(self).wf(),
        ensures
            final(self).wf(),
            final(self).dltime == old(self).dltime,
            final(self).tx_view() == old(self).tx_view(),
            final(self).spec_next_call_id() == old(self).spec_next_call_id(),
            match r {
                Ok(c) => {
                    &&& old(self).free_slot(dir) == Some(CarrierSlot { carrier_num: c.carrier_num, ts: c.ts })
                    &&& c == made_circuit(
                        old(self).dltime,
                        dir,
                        CarrierSlot { carrier_num: c.carrier_num, ts: c.ts },
                        call_id,
                        old(self).spec_next_usage(),
                        comm_type,
                        simplex_duplex,
                    )
                    &&& final(self).spec_next_usage() == Self::usage_after(old(self).spec_next_usage())
                    &&& includes_dl(dir) ==> final(self).dl@ == old(self).dl@.push(c) && final(self).ul_only@
                        == old(self).ul_only@
                    &&& !includes_dl(dir) ==> final(self).ul_only@ == old(self).ul_only@.push(c) && final(self).dl@
                        == old(self).dl@
                },
                Err(e) => {
                    &&& e == CircuitErr::NoCircuitFree
                    &&& old(self).free_slot(dir) is None
                    &&& final(self).dl@ == old(self).dl@
                    &&& final(self).ul_only@ == old(self).ul_only@
                    &&& final(self).spec_next_usage() == old(self).spec_next_usage()
                },
            },
    {
        let slot = match self.get_free_slot(dir) {
            Ok(slot) => slot,
            Err(e) => return Err(e),
        };
        proof {
            lemma_first_free_is_free(*self, candidate_carriers(self.dl@, self.ul_only@), dir);
        }
        let usage = self.get_next_usage_number();
        let circuit = self.make_circuit(dir, slot, call_id, usage, comm_type, simplex_duplex);
        self.open_circuit(dir, circuit)
    }

    /// Number of traffic timeslots (2..=4) of the main carrier free in both directions.
    pub fn free_slot_count(&self) -> (n: usize)
        requires
            self.wf(),
        ensures
            n == self.spec_free_slot_count(),
    {
        let mut n: usize = 0;
        let mut ts: u8 = 2;
        while ts <= 4
            invariant
                self.wf(),
                2 <= ts <= 5,
                n == self.free_count_below(ts),
                n <= ts - 2,
            decreases 5 - ts,
        {
            let (dl, ul) = self.is_active_slot(0, ts);
            if !dl && !ul {
                n = n + 1;
            }
            ts = ts + 1;
        }
        n
    }

    /// Close the `dir` circuit on the slot; closing the downlink also drops its queued blocks.
    pub fn close_circuit_slot(&mut self, dir: Direction, carrier_num: u16, ts: u8) -> (r: Result<CmceCircuit, CircuitErr>)
        requires
            old(self).wf(),
        ensures
            final(self).wf(),
            slot_closed(*old(self), *final(self), dir, carrier_num, ts, r),
    {
        let ghost old_dl = self.dl@;
        let ghost old_ul = self.ul_only@;
        if dir == Direction::Dl || dir == Direction::Both {
            let key = Self::key(carrier_num, ts);
            self.tx_data.remove(&key);
            assert(self.tx_view() =~= old(self).tx_view().remove(key));
            match find_slot(&self.dl, carrier_num, ts) {
                Some(i) => {
                    let c = self.dl.remove(i);
                    proof {
                        assert(slots_unique(self.dl@)) by {
                            assert forall|a: int, b: int|
                                0 <= a < self.dl@.len() && 0 <= b < self.dl@.len() && a != b implies !(#[trigger] at_slot(
                                self.dl@[a],
                                self.dl@[b].carrier_num,
                                self.dl@[b].ts,
                            )) by {
                                let a2 = if a < i { a } else { a + 1 };
                                let b2 = if b < i { b } else { b + 1 };
                                assert(self.dl@[a] == old_dl[a2] && self.dl@[b] == old_dl[b2]);
                            }
                        }
                        assert forall|x: int| 0 <= x < self.dl@.len() implies #[trigger] self.dl@[x].direction
                            != Direction::Ul by {
                            let x2 = if x < i { x } else { x + 1 };
                            assert(self.dl@[x] == old_dl[x2]);
                        }
                        assert forall|x: int| 0 <= x < self.ul_only@.len() implies !has_both_slot(
                            self.dl@,
                            #[trigger] self.ul_only@[x].carrier_num,
                            self.ul_only@[x].ts,
                        ) by {
                            let u = self.ul_only@[x];
                            if has_both_slot(self.dl@, u.carrier_num, u.ts) {
                                let b = choose|b: int| 0 <= b < self.dl@.len() && #[trigger] at_slot(
                                    self.dl@[b],
                                    u.carrier_num,
                                    u.ts,
                                ) && self.dl@[b].direction == Direction::Both;
                                let b2 = if b < i { b } else { b + 1 };
                                assert(self.dl@[b] == old_dl[b2]);
                                assert(at_slot(old_dl[b2], u.carrier_num, u.ts));
                            }
                        }
                        assert forall|cc: u16, t: u8| #[trigger] self.queue(cc, t).len() > 0 implies self.dl_active(cc, t) by {
                            lemma_slot_key_injective(cc, t, carrier_num, ts);
                            assert(old(self).queue(cc, t) == self.queue(cc, t));
                            let w = choose|w: int| 0 <= w < old_dl.len() && #[trigger] at_slot(old_dl[w], cc, t);
                            assert(w != i);
                            let w2 = if w < i { w } else { w - 1 };
                            assert(self.dl@[w2] == old_dl[w]);
                            assert(at_slot(self.dl@[w2], cc, t));
                        }
                    }
                    Ok(c)
                },
                None => {
                    proof {
                        assert forall|cc: u16, t: u8| #[trigger] self.queue(cc, t).len() > 0 implies self.dl_active(cc, t) by {
                            lemma_slot_key_injective(cc, t, carrier_num, ts);
                            assert(old(self).queue(cc, t) == self.queue(cc, t));
                        }
                    }
                    Err(CircuitErr::CircuitNotActive)
                },
            }
        } else {
            match find_slot(&self.ul_only, carrier_num, ts) {
                Some(i) => {
                    let c = self.ul_only.remove(i);
                    proof {
                        assert(slots_unique(self.ul_only@)) by {
                            assert forall|a: int, b: int|
                                0 <= a < self.ul_only@.len() && 0 <= b < self.ul_only@.len() && a != b implies !(#[trigger] at_slot(
                                self.ul_only@[a],
                                self.ul_only@[b].carrier_num,
                                self.ul_only@[b].ts,
                            )) by {
                                let a2 = if a < i { a } else { a + 1 };
                                let b2 = if b < i { b } else { b + 1 };
                                assert(self.ul_only@[a] == old_ul[a2] && self.ul_only@[b] == old_ul[b2]);
                            }
                        }
                        assert forall|x: int| 0 <= x < self.ul_only@.len() implies #[trigger] self.ul_only@[x].direction
                            == Direction::Ul by {
                            let x2 = if x < i { x } else { x + 1 };
                            assert(self.ul_only@[x] == old_ul[x2]);
                        }
                        assert forall|x: int| 0 <= x < self.ul_only@.len() implies !has_both_slot(
                            self.dl@,
                            #[trigger] self.ul_only@[x].carrier_num,
                            self.ul_only@[x].ts,
                        ) by {
                            let x2 = if x < i { x } else { x + 1 };
                            assert(self.ul_only@[x] == old_ul[x2]);
                        }
                        assert forall|cc: u16, t: u8| #[trigger] self.queue(cc, t).len() > 0 implies self.dl_active(cc, t) by {
                            assert(old(self).queue(cc, t) == self.queue(cc, t));
                        }
                    }
                    Ok(c)
                },
                None => Err(CircuitErr::CircuitNotActive),
            }
        }
    }

    /// Close the `dir` circuit on timeslot `ts`, on the carrier of the first circuit (downlink
    /// list first) using that timeslot.
    pub fn close_circuit(&mut self, dir: Direction, ts: u8) -> (r: Result<CmceCircuit, CircuitErr>)
        requires
            old(self).wf(),
        ensures
            final(self).wf(),
            circuit_closed_on_ts(*old(self), *final(self), dir, ts, r),
    {
        reveal(circuit_closed_on_ts);
        let carrier_num = match find_ts(&self.dl, ts).0 {
            Some(i) => self.dl[i].carrier_num,
            None => match find_ts(&self.ul_only, ts).0 {
                Some(j) => self.ul_only[j].carrier_num,
                None => return Err(CircuitErr::CircuitNotActive),
            },
        };
        self.close_circuit_slot(dir, carrier_num, ts)
    }

    /// Queue a downlink block on an open downlink slot.
    pub fn put_block(&mut self, carrier_num: u16, ts: u8, block: Vec<u8>) -> (r: Result<(), CircuitErr>)
        requires
            old(self).wf(),
        ensures
            final(self).wf(),
            final(self).dl@ == old(self).dl@,
            final(self).ul_only@ == old(self).ul_only@,
            final(self).dltime == old(self).dltime,
            final(self).spec_next_call_id() == old(self).spec_next_call_id(),
            final(self).spec_next_usage() == old(self).spec_next_usage(),
            r is Ok <==> old(self).dl_active(carrier_num, ts),
            r is Err ==> r == Err::<(), CircuitErr>(CircuitErr::CircuitNotActive) && final(self).tx_view()
                == old(self).tx_view(),
            r is Ok ==> final(self).tx_view() == old(self).tx_view().insert(
                slot_key(carrier_num, ts),
                old(self).queue(carrier_num, ts).push(block),
            ),
    {
        if !self.is_active_dir_slot(carrier_num, ts, Direction::Dl) {
            return Err(CircuitErr::CircuitNotActive);
        }
        let key = Self::key(carrier_num, ts);
        let mut q = match self.tx_data.remove(&key) {
            Some(q) => q,
            None => VecDeque::new(),
        };
        q.push_back(block);
        self.tx_data.insert(key, q);
        proof {
            assert(self.tx_view() =~= old(self).tx_view().insert(key, old(self).queue(carrier_num, ts).push(block)));
            assert forall|cc: u16, t: u8| #[trigger] self.queue(cc, t).len() > 0 implies self.dl_active(cc, t) by {
                lemma_slot_key_injective(cc, t, carrier_num, ts);
                if slot_key(cc, t) != key {
                    assert(old(self).queue(cc, t) == self.queue(cc, t));
                }
            }
        }
        Ok(())
    }

    /// Take the oldest queued downlink block of an open downlink slot.
    pub fn take_block(&mut self, carrier_num: u16, ts: u8) -> (r: Result<Option<Vec<u8>>, CircuitErr>)
        requires
            old(self).wf(),
        ensures
            final(self).wf(),
            final(self).dl@ == old(self).dl@,
            final(self).ul_only@ == old(self).ul_only@,
            final(self).dltime == old(self).dltime,
            final(self).spec_next_call_id() == old(self).spec_next_call_id(),
            final(self).spec_next_usage() == old(self).spec_next_usage(),
            !old(self).dl_active(carrier_num, ts) ==> r == Err::<Option<Vec<u8>>, CircuitErr>(CircuitErr::CircuitNotActive)
                && final(self).tx_view() == old(self).tx_view(),
            old(self).dl_active(carrier_num, ts) ==> {
                let q = old(self).queue(carrier_num, ts);
                &&& r == Ok::<Option<Vec<u8>>, CircuitErr>(if q.len() > 0 { Some(q[0]) } else { None })
                &&& final(self).queue(carrier_num, ts) == (if q.len() > 0 { q.drop_first() } else { q })
                &&& final(self).tx_view().remove(slot_key(carrier_num, ts)) == old(self).tx_view().remove(
                    slot_key(carrier_num, ts),
                )
            },
    {
        if !self.is_active_dir_slot(carrier_num, ts, Direction::Dl) {
            return Err(CircuitErr::CircuitNotActive);
        }
        let key = Self::key(carrier_num, ts);
        let r = match self.tx_data.remove(&key) {
            Some(mut q) => {
                let front = q.pop_front();
                self.tx_data.insert(key, q);
                front
            },
            None => None,
        };
        proof {
            assert(self.tx_view().remove(key) =~= old(self).tx_view().remove(key));
            assert forall|cc: u16, t: u8| #[trigger] self.queue(cc, t).len() > 0 implies self.dl_active(cc, t) by {
                lemma_slot_key_injective(cc, t, carrier_num, ts);
                if slot_key(cc, t) != key {
                    assert(self.tx_view().remove(key).contains_key(slot_key(cc, t)) == self.tx_view().contains_key(
                        slot_key(cc, t),
                    ));
                    assert(old(self).queue(cc, t) == self.queue(cc, t));
                }
            }
        }
        Ok(r)
    }
}

impl CircuitMgr {
    /// Close every simplex circuit that has expired at `self.dltime`, downlink list first,
    /// appending a close command for each. Full-duplex circuits are exempt.
    fn close_expired_circuits(&mut self, tasks: &mut Vec<CircuitMgrCmd>)
        requires
            old(self).wf(),
        ensures
            final(self).wf(),
            final(self).dltime == old(self).dltime,
            final(self).spec_next_call_id() == old(self).spec_next_call_id(),
            final(self).spec_next_usage() == old(self).spec_next_usage(),
            final(self).dl@ == kept_after_expiry(old(self).dl@, old(self).dltime),
            final(self).ul_only@ == kept_after_expiry(old(self).ul_only@, old(self).dltime),
            forall|c: u16, t: u8| #[trigger] final(self).queue(c, t) == (if closes_slot(old(self).dl@, old(self).dltime, c, t) {
                Seq::<Vec<u8>>::empty()
            } else {
                old(self).queue(c, t)
            }),
            final(tasks)@ == old(tasks)@ + expiry_closes(old(self).dl@, old(self).dltime) + expiry_closes(
                old(self).ul_only@,
                old(self).dltime,
            ),
    {
        let now = self.dltime;
        let ghost dl0 = self.dl@;
        let ghost ul0 = self.ul_only@;
        let ghost tasks0 = tasks@;
        let mut kept: Vec<CmceCircuit> = Vec::new();
        let mut i: usize = 0;
        while i < self.dl.len()
            invariant
                self.dl@ == dl0,
                self.ul_only@ == ul0,
                self.dltime == now,
                self.next_call_identifier == old(self).next_call_identifier,
                self.next_usage_number == old(self).next_usage_number,
                i <= dl0.len(),
                kept@ == kept_after_expiry(dl0.take(i as int), now),
                tasks@ == tasks0 + expiry_closes(dl0.take(i as int), now),
                forall|c: u16, t: u8| #[trigger] self.queue(c, t) == (if closes_slot(dl0.take(i as int), now, c, t) {
                    Seq::<Vec<u8>>::empty()
                } else {
                    old(self).queue(c, t)
                }),
            decreases dl0.len() - i,
        {
            let c = self.dl[i];
            let ghost pre = dl0.take(i as int);
            let ghost next = dl0.take(i + 1);
            assert(next.drop_last() =~= pre);
            assert(next.last() == c);
            let ghost before = *self;
            let age = c.ts_created.age(now);
            if !c.simplex_duplex && age > CIRCUIT_EXPIRY_TIMESLOTS {
                let key = Self::key(c.carrier_num, c.ts);
                self.tx_data.remove(&key);
                tasks.push(CircuitMgrCmd::SendClose(c.call_id, c));
                proof {
                    assert forall|cc: u16, t: u8| #[trigger] self.queue(cc, t) == (if closes_slot(next, now, cc, t) {
                        Seq::<Vec<u8>>::empty()
                    } else {
                        old(self).queue(cc, t)
                    }) by {
                        lemma_slot_key_injective(cc, t, c.carrier_num, c.ts);
                        assert(before.queue(cc, t) == (if closes_slot(pre, now, cc, t) {
                            Seq::<Vec<u8>>::empty()
                        } else {
                            old(self).queue(cc, t)
                        }));
                        if slot_key(cc, t) == key {
                            assert(at_slot(next[i as int], cc, t));
                        } else {
                            assert(self.queue(cc, t) == before.queue(cc, t));
                            if closes_slot(next, now, cc, t) {
                                let w = choose|w: int| 0 <= w < next.len() && #[trigger] at_slot(next[w], cc, t)
                                    && expired(next[w], now);
                                assert(w != i);
                                assert(at_slot(pre[w], cc, t));
                            }
                            if closes_slot(pre, now, cc, t) {
                                let w = choose|w: int| 0 <= w < pre.len() && #[trigger] at_slot(pre[w], cc, t)
                                    && expired(pre[w], now);
                                assert(at_slot(next[w], cc, t));
                            }
                        }
                    }
                }
            } else {
                kept.push(c);
                proof {
                    assert forall|cc: u16, t: u8| #[trigger] self.queue(cc, t) == (if closes_slot(next, now, cc, t) {
                        Seq::<Vec<u8>>::empty()
                    } else {
                        old(self).queue(cc, t)
                    }) by {
                        assert(before.queue(cc, t) == (if closes_slot(pre, now, cc, t) {
                            Seq::<Vec<u8>>::empty()
                        } else {
                            old(self).queue(cc, t)
                        }));
                        if closes_slot(next, now, cc, t) {
                            let w = choose|w: int| 0 <= w < next.len() && #[trigger] at_slot(next[w], cc, t)
                                && expired(next[w], now);
                            assert(w != i);
                            assert(at_slot(pre[w], cc, t));
                        }
                        if closes_slot(pre, now, cc, t) {
                            let w = choose|w: int| 0 <= w < pre.len() && #[trigger] at_slot(pre[w], cc, t)
                                && expired(pre[w], now);
                            assert(at_slot(next[w], cc, t));
                        }
                    }
                }
            }
            i = i + 1;
        }
        assert(dl0.take(dl0.len() as int) =~= dl0);
        let ghost mid = *self;
        let mut kept_ul: Vec<CmceCircuit> = Vec::new();
        let ghost tasks1 = tasks@;
        let mut j: usize = 0;
        while j < self.ul_only.len()
            invariant
                self.ul_only@ == ul0,
                j <= ul0.len(),
                kept_ul@ == kept_after_expiry(ul0.take(j as int), now),
                tasks@ == tasks1 + expiry_closes(ul0.take(j as int), now),
            decreases ul0.len() - j,
        {
            let c = self.ul_only[j];
            assert(ul0.take(j + 1).drop_last() =~= ul0.take(j as int));
            let age = c.ts_created.age(now);
            if !c.simplex_duplex && age > CIRCUIT_EXPIRY_TIMESLOTS {
                tasks.push(CircuitMgrCmd::SendClose(c.call_id, c));
            } else {
                kept_ul.push(c);
            }
            j = j + 1;
        }
        assert(ul0.take(ul0.len() as int) =~= ul0);
        self.dl = kept;
        self.ul_only = kept_ul;
        assert forall|c: u16, t: u8| #[trigger] self.queue(c, t) == (if closes_slot(dl0, now, c, t) {
            Seq::<Vec<u8>>::empty()
        } else {
            old(self).queue(c, t)
        }) by {
            assert(mid.queue(c, t) == self.queue(c, t));
        }
        assert(tasks@ =~= tasks0 + expiry_closes(dl0, now) + expiry_closes(ul0, now));
        proof {
            lemma_kept_unique(dl0, now);
            lemma_kept_unique(ul0, now);
            lemma_kept_members(dl0, now);
            lemma_kept_members(ul0, now);
            let kd = self.dl@;
            let ku = self.ul_only@;
            assert forall|x: int| 0 <= x < kd.len() implies #[trigger] kd[x].direction != Direction::Ul by {
                let k = choose|k: int| 0 <= k < dl0.len() && #[trigger] kd[x] == dl0[k] && !expired(dl0[k], now);
            }
            assert forall|x: int| 0 <= x < ku.len() implies #[trigger] ku[x].direction == Direction::Ul by {
                let k = choose|k: int| 0 <= k < ul0.len() && #[trigger] ku[x] == ul0[k] && !expired(ul0[k], now);
            }
            assert forall|x: int| 0 <= x < ku.len() implies !has_both_slot(kd, #[trigger] ku[x].carrier_num, ku[x].ts) by {
                let k = choose|k: int| 0 <= k < ul0.len() && #[trigger] ku[x] == ul0[k] && !expired(ul0[k], now);
                assert(!has_both_slot(dl0, ul0[k].carrier_num, ul0[k].ts));
                if has_both_slot(kd, ku[x].carrier_num, ku[x].ts) {
                    let b = choose|b: int| 0 <= b < kd.len() && #[trigger] at_slot(kd[b], ku[x].carrier_num, ku[x].ts)
                        && kd[b].direction == Direction::Both;
                    let k2 = choose|k2: int| 0 <= k2 < dl0.len() && #[trigger] kd[b] == dl0[k2] && !expired(dl0[k2], now);
                    assert(at_slot(dl0[k2], ul0[k].carrier_num, ul0[k].ts));
                }
            }
            assert forall|c: u16, t: u8| #[trigger] self.queue(c, t).len() > 0 implies self.dl_active(c, t) by {
                assert(old(self).queue(c, t).len() > 0);
                let w = choose|w: int| 0 <= w < dl0.len() && #[trigger] at_slot(dl0[w], c, t);
                assert(!expired(dl0[w], now));
                assert(has_slot(kd, dl0[w].carrier_num, dl0[w].ts));
            }
        }
    }

    /// Advance to downlink time `dltime`. On the first timeslot of a frame: close expired
    /// circuits, then ask for a D-SETUP repeat on each downlink circuit in its first frame or
    /// on the late-entry grid. Returns the work to do, or `None` when there is none.
    pub fn tick_start(&mut self, dltime: TdmaTime) -> (r: Option<Vec<CircuitMgrCmd>>)
        requires
            old(self).wf(),
        ensures
            final(self).wf(),
            final(self).dltime == dltime,
            final(self).spec_next_call_id() == old(self).spec_next_call_id(),
            final(self).spec_next_usage() == old(self).spec_next_usage(),
            dltime.t != 1 ==> r is None && final(self).dl@ == old(self).dl@ && final(self).ul_only@
                == old(self).ul_only@ && final(self).tx_view() == old(self).tx_view(),
            dltime.t == 1 ==> {
                let dl = kept_after_expiry(old(self).dl@, dltime);
                let cmds = expiry_closes(old(self).dl@, dltime) + expiry_closes(old(self).ul_only@, dltime)
                    + setup_repeats(dl, dltime);
                &&& final(self).dl@ == dl
                &&& final(self).ul_only@ == kept_after_expiry(old(self).ul_only@, dltime)
                &&& forall|c: u16, t: u8| #[trigger] final(self).queue(c, t) == (if closes_slot(old(self).dl@, dltime, c, t) {
                    Seq::<Vec<u8>>::empty()
                } else {
                    old(self).queue(c, t)
                })
                &&& match r {
                    Some(v) => v@ == cmds && cmds.len() > 0,
                    None => cmds.len() == 0,
                }
            },
    {
        self.dltime = dltime;
        proof {
            assert forall|c: u16, t: u8| #[trigger] self.queue(c, t).len() > 0 implies self.dl_active(c, t) by {
                assert(old(self).queue(c, t) == self.queue(c, t));
            }
        }
        if dltime.t != 1 {
            return None;
        }
        let mut tasks: Vec<CircuitMgrCmd> = Vec::new();
        self.close_expired_circuits(&mut tasks);
        let ghost closes = tasks@;
        let mut i: usize = 0;
        while i < self.dl.len()
            invariant
                i <= self.dl@.len(),
                tasks@ == closes + setup_repeats(self.dl@.take(i as int), dltime),
            decreases self.dl@.len() - i,
        {
            let c = self.dl[i];
            assert(self.dl@.take(i + 1).drop_last() =~= self.dl@.take(i as int));
            let age = c.ts_created.age(dltime);
            if age < D_SETUP_REPEAT_TIMESLOTS || (age / 4) % (LATE_ENTRY_INTERVAL_TIMESLOTS / 4) == 0 {
                tasks.push(CircuitMgrCmd::SendDSetup(c.call_id, c.usage, c.carrier_num, c.ts));
            }
            i = i + 1;
        }
        assert(self.dl@.take(self.dl@.len() as int) =~= self.dl@);
        if tasks.len() == 0 {
            None
        } else {
            Some(tasks)
        }
    }
}

/// Index of the circuit of `v` on the slot.
fn find_slot(v: &Vec<CmceCircuit>, carrier_num: u16, ts: u8) -> (r: Option<usize>)
    ensures
        match r {
            Some(i) => i < v@.len() && at_slot(v@[i as int], carrier_num, ts),
            None => !has_slot(v@, carrier_num, ts),
        },
{
    let mut i: usize = 0;
    while i < v.len()
        invariant
            i <= v@.len(),
            forall|j: int| 0 <= j < i ==> !#[trigger] at_slot(v@[j], carrier_num, ts),
        decreases v@.len() - i,
    {
        if v[i].carrier_num == carrier_num && v[i].ts == ts {
            return Some(i);
        }
        i = i + 1;
    }
    None
}

/// First index of `v` using timeslot `ts`, and whether one of them is two-way.
fn find_ts(v: &Vec<CmceCircuit>, ts: u8) -> (r: (Option<usize>, bool))
    ensures
        match r.0 {
            Some(i) => is_first_ts(v@, ts, i as int),
            None => !has_ts(v@, ts),
        },
        r.1 == has_both_ts(v@, ts),
{
    let mut first: Option<usize> = None;
    let mut both = false;
    let mut i: usize = 0;
    while i < v.len()
        invariant
            i <= v@.len(),
            match first {
                Some(f) => is_first_ts(v@, ts, f as int) && f < i,
                None => forall|j: int| 0 <= j < i ==> #[trigger] v@[j].ts != ts,
            },
            both <==> exists|j: int| #![trigger v@[j]] 0 <= j < i && v@[j].ts == ts && v@[j].direction == Direction::Both,
        decreases v@.len() - i,
    {
        if v[i].ts == ts {
            if first.is_none() {
                first = Some(i);
            }
            if v[i].direction == Direction::Both {
                both = true;
            }
        }
        i = i + 1;
    }
    (first, both)
}

} // verus!
