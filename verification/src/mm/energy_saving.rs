//! Energy economy (ETSI EN 300 392-2 clause 16.7): which mode an MS is granted and when it
//! wakes up to monitor the control channel.
use vstd::prelude::*;

verus! {

#[derive(Debug, Clone, Copy, PartialEq, Eq, Structural)]
pub enum EnergySavingMode {
    StayAlive,
    Eg1,
    Eg2,
    Eg3,
    Eg4,
    Eg5,
    Eg6,
    Eg7,
}

/// Frames between two monitoring wake-ups of an energy-economy group (ETSI EN 300 392-2
/// clause 16.7); `None` for StayAlive.
pub open spec fn spec_ee_cycle_frames(mode: EnergySavingMode) -> Option<u8> {
    match mode {
        EnergySavingMode::StayAlive => None,
        EnergySavingMode::Eg1 => Some(2u8),
        EnergySavingMode::Eg2 => Some(3u8),
        EnergySavingMode::Eg3 => Some(6u8),
        EnergySavingMode::Eg4 => Some(9u8),
        EnergySavingMode::Eg5 => Some(18u8),
        EnergySavingMode::Eg6 => Some(36u8),
        EnergySavingMode::Eg7 => Some(72u8),
    }
}

pub fn ee_cycle_frames(mode: EnergySavingMode) -> (r: Option<u8>)
    ensures
        r == spec_ee_cycle_frames(mode),
{
    match mode {
        EnergySavingMode::StayAlive => None,
        EnergySavingMode::Eg1 => Some(2),
        EnergySavingMode::Eg2 => Some(3),
        EnergySavingMode::Eg3 => Some(6),
        EnergySavingMode::Eg4 => Some(9),
        EnergySavingMode::Eg5 => Some(18),
        EnergySavingMode::Eg6 => Some(36),
        EnergySavingMode::Eg7 => Some(72),
    }
}

/// The energy-saving grant sent to an MS.
#[derive(Debug, Clone, Copy, PartialEq, Eq, Structural)]
pub struct EnergySavingInformation {
    pub energy_saving_mode: EnergySavingMode,
    /// Start frame number (1..=18) of the monitoring window; None for StayAlive.
    pub frame_number: Option<u8>,
    /// Start multiframe number (1..=60) of the monitoring window; None for StayAlive.
    pub multiframe_number: Option<u8>,
}

/// The mode granted for a request: StayAlive and Eg1..Eg3 as requested, Eg4..Eg7 capped to
/// Eg3 to bound call-setup latency.
pub open spec fn spec_granted_mode(requested: EnergySavingMode) -> EnergySavingMode {
    match requested {
        EnergySavingMode::StayAlive => EnergySavingMode::StayAlive,
        EnergySavingMode::Eg1 => EnergySavingMode::Eg1,
        EnergySavingMode::Eg2 => EnergySavingMode::Eg2,
        _ => EnergySavingMode::Eg3,
    }
}

/// Decide which energy saving mode to grant an MS and its monitoring window: a
/// non-StayAlive grant wakes at phase `issi mod cycle` of its cycle, anchored in
/// multiframe 1, so MSs are spread across the monitoring slots.
pub fn grant_energy_saving(issi: u32, requested: EnergySavingMode) -> (esi: EnergySavingInformation)
    ensures
        esi.energy_saving_mode == spec_granted_mode(requested),
        match spec_ee_cycle_frames(esi.energy_saving_mode) {
            None => esi.frame_number is None && esi.multiframe_number is None,
            Some(cycle) => {
                let phase = (issi % cycle as u32) as int;
                &&& esi.frame_number == Some((phase % 18 + 1) as u8)
                &&& esi.multiframe_number == Some((phase / 18 + 1) as u8)
            },
        },
        esi.frame_number matches Some(f) ==> 1 <= f <= 18,
        esi.multiframe_number matches Some(m) ==> 1 <= m <= 60,
{
    let granted_esm = match requested {
        EnergySavingMode::StayAlive => EnergySavingMode::StayAlive,
        EnergySavingMode::Eg1 => EnergySavingMode::Eg1,
        EnergySavingMode::Eg2 => EnergySavingMode::Eg2,
        EnergySavingMode::Eg3 => EnergySavingMode::Eg3,
        _ => EnergySavingMode::Eg3,
    };
    let (frame_number, multiframe_number) = match ee_cycle_frames(granted_esm) {
        None => (None, None),
        Some(cycle) => {
            let phase = (issi % cycle as u32) as u8;
            let frame_num = (phase % 18) + 1;
            let mframe_num = (phase / 18) + 1;
            (Some(frame_num), Some(mframe_num))
        },
    };
    EnergySavingInformation { energy_saving_mode: granted_esm, frame_number, multiframe_number }
}

/// The energy saving mode of raw value `v` (ETSI EN 300 392-2 clause 16.10.10): 0 is
/// StayAlive, 1 to 7 are the energy economy groups; other values have no mode.
pub open spec fn spec_energy_saving_mode_from_raw(v: u64) -> Option<EnergySavingMode> {
    if v == 0 {
        Some(EnergySavingMode::StayAlive)
    } else if v == 1 {
        Some(EnergySavingMode::Eg1)
    } else if v == 2 {
        Some(EnergySavingMode::Eg2)
    } else if v == 3 {
        Some(EnergySavingMode::Eg3)
    } else if v == 4 {
        Some(EnergySavingMode::Eg4)
    } else if v == 5 {
        Some(EnergySavingMode::Eg5)
    } else if v == 6 {
        Some(EnergySavingMode::Eg6)
    } else if v == 7 {
        Some(EnergySavingMode::Eg7)
    } else {
        None
    }
}

pub fn energy_saving_mode_from_raw(v: u64) -> (r: Option<EnergySavingMode>)
    ensures
        r == spec_energy_saving_mode_from_raw(v),
{
    match v {
        0 => Some(EnergySavingMode::StayAlive),
        1 => Some(EnergySavingMode::Eg1),
        2 => Some(EnergySavingMode::Eg2),
        3 => Some(EnergySavingMode::Eg3),
        4 => Some(EnergySavingMode::Eg4),
        5 => Some(EnergySavingMode::Eg5),
        6 => Some(EnergySavingMode::Eg6),
        7 => Some(EnergySavingMode::Eg7),
        _ => None,
    }
}

/// The raw ETSI value of an energy saving mode (the inverse of `energy_saving_mode_from_raw`).
pub open spec fn spec_energy_saving_mode_to_raw(m: EnergySavingMode) -> u8 {
    match m {
        EnergySavingMode::StayAlive => 0,
        EnergySavingMode::Eg1 => 1,
        EnergySavingMode::Eg2 => 2,
        EnergySavingMode::Eg3 => 3,
        EnergySavingMode::Eg4 => 4,
        EnergySavingMode::Eg5 => 5,
        EnergySavingMode::Eg6 => 6,
        EnergySavingMode::Eg7 => 7,
    }
}

pub fn energy_saving_mode_to_raw(m: EnergySavingMode) -> (r: u8)
    ensures
        r == spec_energy_saving_mode_to_raw(m),
        spec_energy_saving_mode_from_raw(r as u64) == Some(m),
{
    match m {
        EnergySavingMode::StayAlive => 0,
        EnergySavingMode::Eg1 => 1,
        EnergySavingMode::Eg2 => 2,
        EnergySavingMode::Eg3 => 3,
        EnergySavingMode::Eg4 => 4,
        EnergySavingMode::Eg5 => 5,
        EnergySavingMode::Eg6 => 6,
        EnergySavingMode::Eg7 => 7,
    }
}

} // verus!
