//! Scheduling of the D-NWRK-BROADCAST on the MCCH: once network time or neighbour cells are
//! configured, every broadcast opportunity carries one.
use vstd::prelude::*;
use crate::mle::network_time::{encode_tetra_network_time, spec_network_time};

verus! {

#[derive(Debug, Clone, Copy, PartialEq, Eq, Structural)]
pub enum BroadcastType {
    /// Initial value, and the value while no broadcast type is enabled.
    NoBroadcast,
    NetworkTime,
}

/// A D-NWRK-BROADCAST to send.
#[derive(Debug, Clone, Copy, PartialEq, Eq, Structural)]
pub struct NwrkBroadcast {
    /// The 48-bit network time, when a time zone is configured and its time could be encoded.
    pub network_time: Option<u64>,
    /// Number of CA neighbour cells announced (the configured cells are carried along).
    pub neighbour_count: u8,
}

pub struct MleBroadcast {
    last_broadcast_type: BroadcastType,
    /// Time zone whose time is broadcast, if any.
    time_broadcast: Option<String>,
    /// Number of configured CA neighbour cells.
    neighbour_cells: usize,
}

/// The broadcast type that follows `last`: network time stays on once enabled; it starts when a
/// time zone or neighbour cells are configured.
pub open spec fn spec_next_broadcast_type(last: BroadcastType, has_time: bool, neighbours: usize) -> BroadcastType {
    match last {
        BroadcastType::NoBroadcast => if has_time || neighbours > 0 {
            BroadcastType::NetworkTime
        } else {
            BroadcastType::NoBroadcast
        },
        BroadcastType::NetworkTime => BroadcastType::NetworkTime,
    }
}

/// `time` is a network time the clock could give for the configured zone (none without one).
pub open spec fn time_possible(tz: Option<Seq<char>>, time: Option<u64>) -> bool {
    match tz {
        Some(name) => exists|now: i64| time == #[trigger] spec_network_time(now, name),
        None => time is None,
    }
}

/// The broadcast for a network time and a neighbour-cell count.
pub open spec fn broadcast_of(time: Option<u64>, neighbours: usize) -> Option<NwrkBroadcast> {
    if neighbours > 0 {
        Some(NwrkBroadcast { network_time: time, neighbour_count: neighbours as u8 })
    } else {
        match time {
            Some(t) => Some(NwrkBroadcast { network_time: Some(t), neighbour_count: 0 }),
            None => None,
        }
    }
}

impl MleBroadcast {
    pub closed spec fn spec_last(&self) -> BroadcastType {
        self.last_broadcast_type
    }

    pub closed spec fn spec_time_zone(&self) -> Option<Seq<char>> {
        match self.time_broadcast {
            Some(s) => Some(s@),
            None => None,
        }
    }

    pub closed spec fn spec_neighbours(&self) -> usize {
        self.neighbour_cells
    }

    pub fn new(timezone: Option<String>, neighbour_cells: usize) -> (b: Self)
        ensures
            b.spec_last() == BroadcastType::NoBroadcast,
            b.spec_time_zone() == (match timezone {
                Some(s) => Some(s@),
                None => None::<Seq<char>>,
            }),
            b.spec_neighbours() == neighbour_cells,
    {
        MleBroadcast { last_broadcast_type: BroadcastType::NoBroadcast, time_broadcast: timezone, neighbour_cells }
    }

    /// The type of the next broadcast.
    pub fn determine_next_broadcast_type(&self) -> (t: BroadcastType)
        ensures
            t == spec_next_broadcast_type(self.spec_last(), self.spec_time_zone() is Some, self.spec_neighbours()),
    {
        match self.last_broadcast_type {
            BroadcastType::NoBroadcast => {
                if self.time_broadcast.is_some() || self.neighbour_cells > 0 {
                    BroadcastType::NetworkTime
                } else {
                    BroadcastType::NoBroadcast
                }
            },
            BroadcastType::NetworkTime => BroadcastType::NetworkTime,
        }
    }

    /// Decide the next broadcast. With neighbour cells, one PDU carries them and the time (if
    /// any); without, a time-only PDU goes out when the time could be encoded.
    pub fn send_broadcast(&mut self) -> (r: Option<NwrkBroadcast>)
        ensures
            final(self).spec_last() == spec_next_broadcast_type(
                old(self).spec_last(),
                old(self).spec_time_zone() is Some,
                old(self).spec_neighbours(),
            ),
            final(self).spec_time_zone() == old(self).spec_time_zone(),
            final(self).spec_neighbours() == old(self).spec_neighbours(),
            final(self).spec_last() is NoBroadcast ==> r is None,
            final(self).spec_last() is NetworkTime ==> exists|time: Option<u64>|
                #[trigger] time_possible(old(self).spec_time_zone(), time) && r == broadcast_of(
                    time,
                    old(self).spec_neighbours(),
                ),
    {
        let broadcast_type = self.determine_next_broadcast_type();
        self.last_broadcast_type = broadcast_type;
        match broadcast_type {
            BroadcastType::NetworkTime => {
                let time = match &self.time_broadcast {
                    Some(tz) => encode_tetra_network_time(tz.as_str()),
                    None => None,
                };
                assert(time_possible(self.spec_time_zone(), time));
                if self.neighbour_cells > 0 {
                    Some(NwrkBroadcast { network_time: time, neighbour_count: #[verifier::truncate] (self.neighbour_cells as u8) })
                } else {
                    match time {
                        Some(t) => Some(NwrkBroadcast { network_time: Some(t), neighbour_count: 0 }),
                        None => None,
                    }
                }
            },
            BroadcastType::NoBroadcast => None,
        }
    }
}

} // verus!
