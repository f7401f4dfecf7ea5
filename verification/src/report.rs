//! Raw HID input report layout for the new Steam Controller.
//!
//! This module is the only place that knows wire offsets. All multi-byte
//! fields are little-endian; offsets count the leading report-id byte.

use crate::buttons::{has_all, ButtonFlags};
use crate::protocol::{DecodeError, ImuSample, PadState, StickAxis, Telemetry};
use vstd::prelude::*;

verus! {

/// The main gamepad input report type.
pub const INPUT_REPORT_ID: u8 = 0x42;

/// Minimum report length accepted by [`decode`].
pub const MIN_REPORT_LEN: usize = 46;

/// The separate telemetry report type.
pub const TELEMETRY_REPORT_ID: u8 = 0x7b;

/// Minimum length accepted by [`decode_telemetry`].
pub const TELEMETRY_MIN_LEN: usize = 10;

/// u8, wraps every 256 reports.
pub const SEQUENCE: usize = 1;
/// A/B/X/Y/DOTS/RIGHT_STICK_CLICK/START/RIGHT_PADDLE_UPPER.
pub const BUTTONS_0: usize = 2;
/// RIGHT_PADDLE_LOWER/RIGHT_BUMPER/DPAD/BACK/LEFT_STICK_CLICK.
pub const BUTTONS_1: usize = 3;
/// GUIDE/paddles/LEFT_BUMPER/RIGHT_STICK_CAP_TOUCH/RIGHT_PAD touch+click;
/// bit `0x80` is reserved.
pub const BUTTONS_2: usize = 4;
/// Status byte, a bit field: `0x01` left stick cap touch, `0x02` left pad
/// touch, `0x04` left pad click, `0x20` left grip (not decoded).
pub const STATUS: usize = 5;
pub const LEFT_TRIGGER: usize = 6;
pub const RIGHT_TRIGGER: usize = 8;
pub const LEFT_STICK_X: usize = 10;
pub const LEFT_STICK_Y: usize = 12;
pub const RIGHT_STICK_X: usize = 14;
pub const RIGHT_STICK_Y: usize = 16;
pub const LEFT_PAD_X: usize = 18;
pub const LEFT_PAD_Y: usize = 20;
pub const RIGHT_PAD_X: usize = 24;
pub const RIGHT_PAD_Y: usize = 26;
/// u8 free-running counter of unknown identity.
pub const UNKNOWN_COUNTER_32: usize = 32;
/// 3 x i16.
pub const ACCEL: usize = 34;
/// 3 x i16.
pub const GYRO: usize = 40;
/// Byte 9 of the telemetry report: signed RSSI in dBm.
pub const SIGNAL_DBM: usize = 9;

/// The unsigned little-endian value of two bytes.
pub open spec fn le_u16(lo: u8, hi: u8) -> u16 {
    (lo as int + 256 * hi as int) as u16
}

/// The two's-complement little-endian value of two bytes.
pub open spec fn le_i16(lo: u8, hi: u8) -> i16 {
    let v = lo as int + 256 * hi as int;
    if v < 0x8000 {
        v as i16
    } else {
        (v - 0x10000) as i16
    }
}

/// The two's-complement value of one byte.
pub open spec fn signed_byte(b: u8) -> i8 {
    if b < 0x80 {
        b as i8
    } else {
        (b as int - 0x100) as i8
    }
}

/// The u16 stored at `off` of `r`.
pub open spec fn u16_at(r: Seq<u8>, off: int) -> u16 {
    le_u16(r[off], r[off + 1])
}

/// The i16 stored at `off` of `r`.
pub open spec fn i16_at(r: Seq<u8>, off: int) -> i16 {
    le_i16(r[off], r[off + 1])
}

/// The stick or pad position stored at `off` (x) and `off + 2` (y).
pub open spec fn axis_at(r: Seq<u8>, off: int) -> StickAxis {
    StickAxis { x: i16_at(r, off), y: i16_at(r, off + 2) }
}

/// The three i16 channels stored from `off`.
pub open spec fn triplet_at(r: Seq<u8>, off: int) -> Seq<i16> {
    seq![i16_at(r, off), i16_at(r, off + 2), i16_at(r, off + 4)]
}

/// `true` when the left pad reports a touch position.
pub open spec fn left_pad_moved(r: Seq<u8>) -> bool {
    i16_at(r, LEFT_PAD_X as int) != 0 || i16_at(r, LEFT_PAD_Y as int) != 0
}

/// The button bits carried verbatim by report bytes 2-4 (the reserved top
/// bit of byte 4 dropped).
pub open spec fn raw_button_bits(b0: u8, b1: u8, b2: u8) -> u32 {
    (b0 as u32) | ((b1 as u32) << 8u32) | (((b2 & 0x7f) as u32) << 16u32)
}

/// The button bits synthesized from the status byte and the left pad.
pub open spec fn status_button_bits(status: u8, pad_moved: bool) -> u32 {
    (if status & 0x04 != 0 { ButtonFlags::LEFT_PAD_CLICK } else { 0 })
        | (if status & 0x01 != 0 { ButtonFlags::LEFT_STICK_CAP_TOUCH } else { 0 })
        | (if status & 0x02 != 0 || pad_moved { ButtonFlags::LEFT_PAD_TOUCH } else { 0 })
}

/// The complete button set decoded from `r`.
pub open spec fn decoded_buttons(r: Seq<u8>) -> u32 {
    raw_button_bits(r[BUTTONS_0 as int], r[BUTTONS_1 as int], r[BUTTONS_2 as int])
        | status_button_bits(r[STATUS as int], left_pad_moved(r))
}

/// The error [`decode`] gives for `r`, if any.
pub open spec fn decode_error(r: Seq<u8>) -> Option<DecodeError> {
    if r.len() == 0 {
        Some(DecodeError::TooShort)
    } else if r[0] != INPUT_REPORT_ID {
        Some(DecodeError::UnexpectedReportId(r[0]))
    } else if r.len() < MIN_REPORT_LEN {
        Some(DecodeError::TooShort)
    } else {
        None
    }
}

/// `s` is the state that the (valid) input report `r` encodes.
pub open spec fn decodes_to(r: Seq<u8>, s: PadState) -> bool {
    &&& s.sequence == r[SEQUENCE as int]
    &&& s.buttons@ == decoded_buttons(r)
    &&& s.left_trigger == u16_at(r, LEFT_TRIGGER as int)
    &&& s.right_trigger == u16_at(r, RIGHT_TRIGGER as int)
    &&& s.left_stick == axis_at(r, LEFT_STICK_X as int)
    &&& s.right_stick == axis_at(r, RIGHT_STICK_X as int)
    &&& s.left_pad == axis_at(r, LEFT_PAD_X as int)
    &&& s.right_pad == axis_at(r, RIGHT_PAD_X as int)
    &&& s.unknown_counter_32 == r[UNKNOWN_COUNTER_32 as int]
    &&& s.imu.accel@ == triplet_at(r, ACCEL as int)
    &&& s.imu.gyro@ == triplet_at(r, GYRO as int)
}

/// The error [`decode_telemetry`] gives for `r`, if any.
pub open spec fn telemetry_error(r: Seq<u8>) -> Option<DecodeError> {
    if r.len() == 0 {
        Some(DecodeError::TooShort)
    } else if r[0] != TELEMETRY_REPORT_ID {
        Some(DecodeError::UnexpectedReportId(r[0]))
    } else if r.len() < TELEMETRY_MIN_LEN {
        Some(DecodeError::TooShort)
    } else {
        None
    }
}

fn read_u16(buf: &[u8], offset: usize) -> (res: Result<u16, DecodeError>)
    requires
        offset + 2 <= usize::MAX,
    ensures
        match res {
            Ok(v) => offset + 2 <= buf@.len() && v == u16_at(buf@, offset as int),
            Err(e) => offset + 2 > buf@.len() && e == DecodeError::TooShort,
        },
{
    if offset + 2 > buf.len() {
        return Err(DecodeError::TooShort);
    }
    let lo = buf[offset];
    let hi = buf[offset + 1];
    Ok(lo as u16 + 256 * (hi as u16))
}

fn read_i16(buf: &[u8], offset: usize) -> (res: Result<i16, DecodeError>)
    requires
        offset + 2 <= usize::MAX,
    ensures
        match res {
            Ok(v) => offset + 2 <= buf@.len() && v == i16_at(buf@, offset as int),
            Err(e) => offset + 2 > buf@.len() && e == DecodeError::TooShort,
        },
{
    let v = read_u16(buf, offset)?;
    if v < 0x8000 {
        Ok(v as i16)
    } else {
        Ok((v as i32 - 0x10000) as i16)
    }
}

fn read_i16_triplet(buf: &[u8], offset: usize) -> (res: Result<[i16; 3], DecodeError>)
    requires
        offset + 6 <= usize::MAX,
    ensures
        match res {
            Ok(v) => offset + 6 <= buf@.len() && v@ == triplet_at(buf@, offset as int),
            Err(e) => offset + 6 > buf@.len() && e == DecodeError::TooShort,
        },
{
    let a = read_i16(buf, offset)?;
    let b = read_i16(buf, offset + 2)?;
    let c = read_i16(buf, offset + 4)?;
    let r = [a, b, c];
    assert(r@ =~= triplet_at(buf@, offset as int));
    Ok(r)
}

/// Decode a raw HID input report (including the leading report-id byte)
/// into a [`PadState`].
///
/// An empty report is `TooShort`; a report whose first byte is not
/// [`INPUT_REPORT_ID`] is `UnexpectedReportId` with that byte, whatever its
/// length; a report shorter than [`MIN_REPORT_LEN`] is `TooShort`.
pub fn decode(report: &[u8]) -> (res: Result<PadState, DecodeError>)
    ensures
        match res {
            Ok(s) => decode_error(report@) is None && decodes_to(report@, s),
            Err(e) => decode_error(report@) == Some(e),
        },
{
    if report.len() == 0 {
        return Err(DecodeError::TooShort);
    }
    if report[0] != INPUT_REPORT_ID {
        return Err(DecodeError::UnexpectedReportId(report[0]));
    }
    if report.len() < MIN_REPORT_LEN {
        return Err(DecodeError::TooShort);
    }

    let sequence = report[SEQUENCE];

    let b0 = report[BUTTONS_0];
    let b1 = report[BUTTONS_1];
    let b2 = report[BUTTONS_2];
    let raw: u32 = (b0 as u32) | ((b1 as u32) << 8u32) | (((b2 & 0x7f) as u32) << 16u32);
    let status = report[STATUS];
    let click: u32 = if status & 0x04 != 0 { ButtonFlags::LEFT_PAD_CLICK } else { 0 };
    let cap_touch: u32 = if status & 0x01 != 0 { ButtonFlags::LEFT_STICK_CAP_TOUCH } else { 0 };

    let left_trigger = read_u16(report, LEFT_TRIGGER)?;
    let right_trigger = read_u16(report, RIGHT_TRIGGER)?;

    let left_stick = StickAxis {
        x: read_i16(report, LEFT_STICK_X)?,
        y: read_i16(report, LEFT_STICK_Y)?,
    };
    let right_stick = StickAxis {
        x: read_i16(report, RIGHT_STICK_X)?,
        y: read_i16(report, RIGHT_STICK_Y)?,
    };
    let left_pad = StickAxis {
        x: read_i16(report, LEFT_PAD_X)?,
        y: read_i16(report, LEFT_PAD_Y)?,
    };
    let pad_touch: u32 = if status & 0x02 != 0 || left_pad.x != 0 || left_pad.y != 0 {
        ButtonFlags::LEFT_PAD_TOUCH
    } else {
        0
    };
    let bits: u32 = raw | (click | cap_touch | pad_touch);
    let right_pad = StickAxis {
        x: read_i16(report, RIGHT_PAD_X)?,
        y: read_i16(report, RIGHT_PAD_Y)?,
    };

    let unknown_counter_32 = report[UNKNOWN_COUNTER_32];

    let imu = ImuSample {
        accel: read_i16_triplet(report, ACCEL)?,
        gyro: read_i16_triplet(report, GYRO)?,
    };

    Ok(PadState {
        sequence,
        buttons: ButtonFlags { bits },
        left_trigger,
        right_trigger,
        left_stick,
        right_stick,
        left_pad,
        right_pad,
        unknown_counter_32,
        imu,
    })
}

/// Decode the separate telemetry report (`0x7b`, including the leading
/// report-id byte) into a [`Telemetry`]: byte 9 read as a signed byte.
pub fn decode_telemetry(report: &[u8]) -> (res: Result<Telemetry, DecodeError>)
    ensures
        match res {
            Ok(t) => telemetry_error(report@) is None && t.signal_dbm == signed_byte(
                report@[SIGNAL_DBM as int],
            ),
            Err(e) => telemetry_error(report@) == Some(e),
        },
{
    if report.len() == 0 {
        return Err(DecodeError::TooShort);
    }
    if report[0] != TELEMETRY_REPORT_ID {
        return Err(DecodeError::UnexpectedReportId(report[0]));
    }
    if report.len() < TELEMETRY_MIN_LEN {
        return Err(DecodeError::TooShort);
    }
    let b = report[SIGNAL_DBM];
    let signal_dbm: i8 = if b < 0x80 {
        b as i8
    } else {
        (b as i16 - 0x100) as i8
    };
    Ok(Telemetry { signal_dbm })
}

proof fn lemma_button_bit_layout(b0: u8, b1: u8, b2: u8, status: u8, moved: bool)
    by (bit_vector)
    ensures
        ({
            let d = raw_button_bits(b0, b1, b2) | status_button_bits(status, moved);
            &&& d & 0xff == b0 as u32
            &&& (d >> 8u32) & 0xff == b1 as u32
            &&& (d >> 16u32) & 0x7f == (b2 & 0x7f) as u32
            &&& d & !0x03ff_ffffu32 == 0
            &&& (d & 0x0080_0000 == 0x0080_0000) == (status & 0x04 != 0)
            &&& (d & 0x0100_0000 == 0x0100_0000) == (status & 0x01 != 0)
            &&& (d & 0x0200_0000 == 0x0200_0000) == (status & 0x02 != 0 || moved)
        }),
{
}

/// Layout of the decoded button set: report bytes 2 and 3 appear verbatim
/// as bits 0-15, the low seven bits of byte 4 as bits 16-22 (its reserved
/// top bit never surfaces), and no bit outside the defined flags is ever
/// set. The status byte is read as a bit field, tested by bitwise AND: its
/// bit `0x01` alone decides `LEFT_STICK_CAP_TOUCH` (so it still fires
/// together with the grip bit `0x20`), bit `0x04` alone decides
/// `LEFT_PAD_CLICK`, and `LEFT_PAD_TOUCH` is set exactly when bit `0x02` is
/// set or the left pad position is not `(0, 0)`.
pub proof fn lemma_decoded_button_layout(r: Seq<u8>)
    requires
        decode_error(r) is None,
    ensures
        decoded_buttons(r) & 0xff == r[BUTTONS_0 as int] as u32,
        (decoded_buttons(r) >> 8u32) & 0xff == r[BUTTONS_1 as int] as u32,
        (decoded_buttons(r) >> 16u32) & 0x7f == (r[BUTTONS_2 as int] & 0x7f) as u32,
        decoded_buttons(r) & !ButtonFlags::ALL_BITS == 0,
        has_all(decoded_buttons(r), ButtonFlags::LEFT_PAD_CLICK) == (r[STATUS as int] & 0x04 != 0),
        has_all(decoded_buttons(r), ButtonFlags::LEFT_STICK_CAP_TOUCH) == (r[STATUS as int] & 0x01
            != 0),
        has_all(decoded_buttons(r), ButtonFlags::LEFT_PAD_TOUCH) == (r[STATUS as int] & 0x02 != 0
            || left_pad_moved(r)),
{
    lemma_button_bit_layout(
        r[BUTTONS_0 as int],
        r[BUTTONS_1 as int],
        r[BUTTONS_2 as int],
        r[STATUS as int],
        left_pad_moved(r),
    );
}

proof fn lemma_le_i16_value(lo: u8, hi: u8)
    ensures
        le_i16(lo, hi) as int == lo as int + 256 * hi as int - (if hi >= 0x80 { 0x10000int } else { 0int }),
        (le_i16(lo, hi) == 0) == (lo == 0 && hi == 0),
        le_u16(lo, hi) as int == lo as int + 256 * hi as int,
{
}

/// What a decoded input report holds, read straight from its bytes (offsets
/// count the report id byte at 0): the sequence byte; the triggers as
/// unsigned little-endian 16-bit values; the sticks, pads and IMU channels
/// as two's-complement little-endian 16-bit values; the counter byte; bytes
/// 2 and 3 and the low 7 bits of byte 4 as the first 23 button bits; the
/// left pad click and the left stick cap touch from status bits `0x04` and
/// `0x01`; and the left pad touch whenever status bit `0x02` is set or the
/// left pad position (bytes 18-21) is anything but `(0, 0)`, in any
/// direction. No other button bit is ever set.
pub proof fn lemma_decode_reads_bytes(r: Seq<u8>, s: PadState)
    requires
        decode_error(r) is None,
        decodes_to(r, s),
    ensures
        s.sequence == r[1],
        s.left_trigger as int == r[6] as int + 256 * r[7] as int,
        s.right_trigger as int == r[8] as int + 256 * r[9] as int,
        s.left_stick.x as int == r[10] as int + 256 * r[11] as int - (if r[11] >= 0x80 { 0x10000int } else { 0int }),
        s.left_stick.y as int == r[12] as int + 256 * r[13] as int - (if r[13] >= 0x80 { 0x10000int } else { 0int }),
        s.right_stick.x as int == r[14] as int + 256 * r[15] as int - (if r[15] >= 0x80 { 0x10000int } else { 0int }),
        s.right_stick.y as int == r[16] as int + 256 * r[17] as int - (if r[17] >= 0x80 { 0x10000int } else { 0int }),
        s.left_pad.x as int == r[18] as int + 256 * r[19] as int - (if r[19] >= 0x80 { 0x10000int } else { 0int }),
        s.left_pad.y as int == r[20] as int + 256 * r[21] as int - (if r[21] >= 0x80 { 0x10000int } else { 0int }),
        s.right_pad.x as int == r[24] as int + 256 * r[25] as int - (if r[25] >= 0x80 { 0x10000int } else { 0int }),
        s.right_pad.y as int == r[26] as int + 256 * r[27] as int - (if r[27] >= 0x80 { 0x10000int } else { 0int }),
        s.imu.accel[0] as int == r[34] as int + 256 * r[35] as int - (if r[35] >= 0x80 { 0x10000int } else { 0int }),
        s.imu.accel[1] as int == r[36] as int + 256 * r[37] as int - (if r[37] >= 0x80 { 0x10000int } else { 0int }),
        s.imu.accel[2] as int == r[38] as int + 256 * r[39] as int - (if r[39] >= 0x80 { 0x10000int } else { 0int }),
        s.imu.gyro[0] as int == r[40] as int + 256 * r[41] as int - (if r[41] >= 0x80 { 0x10000int } else { 0int }),
        s.imu.gyro[1] as int == r[42] as int + 256 * r[43] as int - (if r[43] >= 0x80 { 0x10000int } else { 0int }),
        s.imu.gyro[2] as int == r[44] as int + 256 * r[45] as int - (if r[45] >= 0x80 { 0x10000int } else { 0int }),
        s.unknown_counter_32 == r[32],
        s.buttons@ & 0xff == r[2] as u32,
        (s.buttons@ >> 8u32) & 0xff == r[3] as u32,
        (s.buttons@ >> 16u32) & 0x7f == (r[4] & 0x7f) as u32,
        s.buttons@ & !0x03ff_ffffu32 == 0,
        (s.buttons@ & 0x0080_0000 == 0x0080_0000) == (r[5] & 0x04 != 0),
        (s.buttons@ & 0x0100_0000 == 0x0100_0000) == (r[5] & 0x01 != 0),
        (s.buttons@ & 0x0200_0000 == 0x0200_0000) == (r[5] & 0x02 != 0 || r[18] != 0 || r[19] != 0
            || r[20] != 0 || r[21] != 0),
{
    lemma_decoded_button_layout(r);
    lemma_le_i16_value(r[10], r[11]);
    lemma_le_i16_value(r[12], r[13]);
    lemma_le_i16_value(r[14], r[15]);
    lemma_le_i16_value(r[16], r[17]);
    lemma_le_i16_value(r[18], r[19]);
    lemma_le_i16_value(r[20], r[21]);
    lemma_le_i16_value(r[24], r[25]);
    lemma_le_i16_value(r[26], r[27]);
    lemma_le_i16_value(r[34], r[35]);
    lemma_le_i16_value(r[36], r[37]);
    lemma_le_i16_value(r[38], r[39]);
    lemma_le_i16_value(r[40], r[41]);
    lemma_le_i16_value(r[42], r[43]);
    lemma_le_i16_value(r[44], r[45]);
    lemma_le_i16_value(r[6], r[7]);
    lemma_le_i16_value(r[8], r[9]);
    assert(s.imu.accel@[0] == s.imu.accel[0]);
}

/// When a report is refused, by its bytes: an empty report is too short; a
/// first byte other than `0x42` is reported as the unexpected id, at any
/// length; a `0x42` report of fewer than 46 bytes is too short; anything
/// else decodes. Telemetry is judged the same way with id `0x7b` and 10
/// bytes, and its signal is byte 9 read as a signed byte.
pub proof fn lemma_refusals_by_bytes(r: Seq<u8>)
    ensures
        decode_error(r) == (if r.len() == 0 {
            Some(DecodeError::TooShort)
        } else if r[0] != 0x42 {
            Some(DecodeError::UnexpectedReportId(r[0]))
        } else if r.len() < 46 {
            Some(DecodeError::TooShort)
        } else {
            None
        }),
        telemetry_error(r) == (if r.len() == 0 {
            Some(DecodeError::TooShort)
        } else if r[0] != 0x7b {
            Some(DecodeError::UnexpectedReportId(r[0]))
        } else if r.len() < 10 {
            Some(DecodeError::TooShort)
        } else {
            None
        }),
        r.len() >= 10 ==> signed_byte(r[SIGNAL_DBM as int]) as int == r[9] as int - (if r[9]
            >= 0x80 {
            0x100int
        } else {
            0int
        }),
{
}

/// A valid input report decodes the same whatever follows its first
/// [`MIN_REPORT_LEN`] bytes: bytes past the decoded layout are ignored.
pub proof fn lemma_decode_ignores_trailing_bytes(r: Seq<u8>, extra: Seq<u8>)
    requires
        r.len() >= MIN_REPORT_LEN,
    ensures
        decode_error(r + extra) == decode_error(r),
        forall|s: PadState| decodes_to(r + extra, s) <==> decodes_to(r, s),
{
    let t = r + extra;
    assert forall|i: int| 0 <= i < r.len() implies t[i] == r[i] by {}
    assert(decoded_buttons(t) == decoded_buttons(r));
    assert(triplet_at(t, ACCEL as int) == triplet_at(r, ACCEL as int));
    assert(triplet_at(t, GYRO as int) == triplet_at(r, GYRO as int));
}

/// A valid telemetry report decodes the same whatever follows its first
/// [`TELEMETRY_MIN_LEN`] bytes.
pub proof fn lemma_telemetry_ignores_trailing_bytes(r: Seq<u8>, extra: Seq<u8>)
    requires
        r.len() >= TELEMETRY_MIN_LEN,
    ensures
        telemetry_error(r + extra) == telemetry_error(r),
        (r + extra)[SIGNAL_DBM as int] == r[SIGNAL_DBM as int],
{
}

/// The signal byte is read as two's complement: the decoded value is
/// congruent to the byte modulo 256 and lies in `-128..=127`, so bytes
/// `0x80..=0xff` give negative dBm.
pub proof fn lemma_signed_byte(b: u8)
    ensures
        -128 <= signed_byte(b) <= 127,
        (signed_byte(b) as int - b as int) % 256 == 0,
        (signed_byte(b) < 0) == (b >= 0x80),
{
}

} // verus!
