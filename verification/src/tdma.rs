//! TDMA timing, addressing and slot vocabulary shared by the entities.
use vstd::prelude::*;

verus! {

/// Timeslots in one hyperframe cycle of the 16-bit hyperframe counter:
/// 65536 hyperframes x 60 multiframes x 18 frames x 4 timeslots.
pub const TDMA_PERIOD_TIMESLOTS: i64 = 283_115_520;

/// A TDMA time stamp: hyperframe, multiframe (1..=60), frame (1..=18), timeslot (1..=4).
#[derive(Debug, Clone, Copy, PartialEq, Eq, Structural)]
pub struct TdmaTime {
    pub h: u16,
    pub m: u8,
    pub f: u8,
    pub t: u8,
}

/// Linear timeslot index of a time stamp.
pub open spec fn tdma_index(x: TdmaTime) -> int {
    ((x.h as int * 60 + x.m as int) * 18 + x.f as int) * 4 + x.t as int
}

/// Timeslots from `from` to `now`, counted forward around the hyperframe cycle.
pub open spec fn spec_age(from: TdmaTime, now: TdmaTime) -> int {
    let d = tdma_index(now) - tdma_index(from);
    if d >= 0 { d } else { d + TDMA_PERIOD_TIMESLOTS }
}

impl TdmaTime {
    /// The first timeslot of hyperframe 0.
    pub fn start() -> (r: Self)
        ensures
            r == (TdmaTime { h: 0, m: 1, f: 1, t: 1 }),
    {
        TdmaTime { h: 0, m: 1, f: 1, t: 1 }
    }

    /// Timeslots elapsed from `self` to `now`.
    pub fn age(&self, now: TdmaTime) -> (a: i64)
        ensures
            a == spec_age(*self, now),
    {
        let a = ((self.h as i64 * 60 + self.m as i64) * 18 + self.f as i64) * 4 + self.t as i64;
        let b = ((now.h as i64 * 60 + now.m as i64) * 18 + now.f as i64) * 4 + now.t as i64;
        let d = b - a;
        if d >= 0 { d } else { d + TDMA_PERIOD_TIMESLOTS }
    }
}

/// Kind of short subscriber identity.
#[derive(Debug, Clone, Copy, PartialEq, Eq, Structural)]
pub enum SsiType {
    /// Individual subscriber.
    Issi,
    /// Group subscriber.
    Gssi,
}

/// A TETRA address: a short subscriber identity and its kind.
#[derive(Debug, Clone, Copy, PartialEq, Eq, Structural)]
pub struct TetraAddress {
    pub ssi: u32,
    pub ssi_type: SsiType,
}

/// Direction of a circuit.
#[derive(Debug, Clone, Copy, PartialEq, Eq, Structural)]
pub enum Direction {
    Dl,
    Ul,
    Both,
}

/// A timeslot on a carrier.
#[derive(Debug, Clone, Copy, PartialEq, Eq, Structural)]
pub struct CarrierSlot {
    pub carrier_num: u16,
    pub ts: u8,
}

} // verus!
