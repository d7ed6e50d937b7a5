//! Display backlight brightness control: the decisions around the kernel backlight node
//! (the node is discovered, read and written by the application).
use vstd::prelude::*;

verus! {

/// Upper bound on the brightness value accepted from the UI.
pub const MAX_VALUE: u32 = 255;

#[derive(Debug, Clone)]
pub enum BacklightError {
    /// No backlight panel on this host.
    NotAvailable,
    /// Requested value outside 0..=MAX_VALUE.
    OutOfRange,
    /// The write (direct and the sudo fallback) failed; payload is the reason.
    Failed(String),
    /// Could not spawn the helper at all.
    Io(String),
    /// The privileged write took too long.
    Timeout,
}

#[derive(Debug, Clone)]
pub struct BacklightStatus {
    pub present: bool,
    pub device: Option<String>,
    pub brightness: Option<u32>,
    pub max_brightness: Option<u32>,
}

/// What was read from a discovered backlight device directory.
#[derive(Debug, Clone)]
pub struct DiscoveredPanel {
    /// The directory's file name.
    pub device: Option<String>,
    /// The readable `brightness` node value.
    pub brightness: Option<u32>,
    /// The readable `max_brightness` node value.
    pub max_brightness: Option<u32>,
}

/// Current backlight status from the discovery result. Never errors: an absent panel is
/// reported as `present: false` with nothing else known.
pub fn status_from_discovery(discovered: Option<DiscoveredPanel>) -> (st: BacklightStatus)
    ensures
        match discovered {
            None => !st.present && st.device is None && st.brightness is None
                && st.max_brightness is None,
            Some(p) => st.present && st.device == p.device && st.brightness == p.brightness
                && st.max_brightness == p.max_brightness,
        },
{
    match discovered {
        None => BacklightStatus { present: false, device: None, brightness: None, max_brightness: None },
        Some(p) => BacklightStatus {
            present: true,
            device: p.device,
            brightness: p.brightness,
            max_brightness: p.max_brightness,
        },
    }
}

/// Validate a requested brightness before touching any hardware.
pub fn check_requested_brightness(value: u32) -> (r: Result<(), BacklightError>)
    ensures
        r is Ok <==> value <= MAX_VALUE,
        r matches Err(e) ==> e is OutOfRange,
{
    if value > MAX_VALUE {
        Err(BacklightError::OutOfRange)
    } else {
        Ok(())
    }
}

/// The value actually written: the request, clamped to the device's `max_brightness` when
/// that node is readable.
pub fn clamp_to_device(value: u32, device_max: Option<u32>) -> (r: u32)
    ensures
        r == (match device_max {
            Some(max) => if value <= max { value } else { max },
            None => value,
        }),
{
    match device_max {
        Some(max) => if value <= max { value } else { max },
        None => value,
    }
}

} // verus!
