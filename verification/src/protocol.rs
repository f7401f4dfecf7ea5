//! Normalized controller state decoded from HID input reports.

use crate::buttons::ButtonFlags;
use crate::text::{hex2, push_hex2};
use crate::xinput::XInputState;
use vstd::prelude::*;

verus! {

/// A single analog axis pair (stick or trackpad), raw signed range.
#[derive(Debug, Clone, Copy, PartialEq, Eq, Default)]
pub struct StickAxis {
    pub x: i16,
    pub y: i16,
}

/// Raw 6-axis IMU sample (accelerometer + gyroscope). Per-channel axis
/// semantics are not confirmed.
#[derive(Debug, Clone, Copy, PartialEq, Eq, Default)]
pub struct ImuSample {
    pub accel: [i16; 3],
    pub gyro: [i16; 3],
}

/// Normalized snapshot of the controller's full input state for one report.
#[derive(Debug, Clone, Copy, PartialEq, Eq)]
pub struct PadState {
    /// Per-device sequence counter (wraps every 256 reports).
    pub sequence: u8,
    pub buttons: ButtonFlags,
    /// 0 (released) to 32767 (fully pulled).
    pub left_trigger: u16,
    /// 0 (released) to 32767 (fully pulled).
    pub right_trigger: u16,
    pub left_stick: StickAxis,
    pub right_stick: StickAxis,
    /// Left touchpad position; `(0, 0)` while untouched.
    pub left_pad: StickAxis,
    /// Right touchpad position; `(0, 0)` while untouched.
    pub right_pad: StickAxis,
    /// Raw wire byte 32: a free-running counter of unknown identity (not
    /// grip pressure).
    pub unknown_counter_32: u8,
    pub imu: ImuSample,
}

/// Decoded contents of the separate telemetry report (`0x7b`).
#[derive(Debug, Clone, Copy, PartialEq, Eq, Default)]
pub struct Telemetry {
    /// Wireless RF signal strength, in dBm (more negative = weaker).
    pub signal_dbm: i8,
}

/// Why a report could not be decoded.
#[derive(Debug, Clone, Copy, PartialEq, Eq)]
pub enum DecodeError {
    /// The report is too short to decode.
    TooShort,
    /// The report's first byte is not the expected report id.
    UnexpectedReportId(u8),
}

/// The text shown for a decode error.
pub open spec fn decode_error_text(e: DecodeError) -> Seq<char> {
    match e {
        DecodeError::TooShort => "report too short to decode"@,
        DecodeError::UnexpectedReportId(id) => "unexpected report id: 0x"@ + hex2(id),
    }
}

impl DecodeError {
    /// The error as text: `report too short to decode`, or `unexpected
    /// report id: 0x..` with the id as two lowercase hex digits.
    pub fn message(&self) -> (r: String)
        ensures
            r@ == decode_error_text(*self),
    {
        match self {
            DecodeError::TooShort => "report too short to decode".to_owned(),
            DecodeError::UnexpectedReportId(id) => {
                let mut s = "unexpected report id: 0x".to_owned();
                push_hex2(&mut s, *id);
                s
            },
        }
    }
}

/// Latest decoded state, shared with the live monitoring UI. `None` until
/// the first report arrives.
#[derive(Debug, Clone, Copy, PartialEq, Eq, Default)]
pub struct LiveState {
    pub raw: Option<PadState>,
    pub mapped: Option<XInputState>,
}

} // verus!
