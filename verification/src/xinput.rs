//! Virtual XInput-compatible controller output shape.

use crate::buttons::{has_all16, XInputButtons};
use vstd::prelude::*;

verus! {

/// A fully mapped, ready-to-send XInput gamepad state.
#[derive(Debug, Clone, Copy, PartialEq, Eq, Default)]
pub struct XInputState {
    pub buttons: XInputButtons,
    pub left_trigger: u8,
    pub right_trigger: u8,
    pub thumb_lx: i16,
    pub thumb_ly: i16,
    pub thumb_rx: i16,
    pub thumb_ry: i16,
}

/// Something that can present an [`XInputState`] to the OS as a gamepad.
pub trait VirtualPad {
    /// What a failed update reports.
    type Error;

    /// Presents `state` as the gamepad's current state.
    fn update(&mut self, state: &XInputState) -> Result<(), Self::Error>;
}

/// One hat axis from its negative and positive direction buttons: `-1`
/// when only the negative one is held, `1` when only the positive one is
/// held, `0` when neither or both are.
pub open spec fn hat_axis(negative: bool, positive: bool) -> i32 {
    if negative && !positive {
        -1i32
    } else if positive && !negative {
        1i32
    } else {
        0i32
    }
}

/// The D-pad as an evdev hat pair `(x, y)`: left/right on `x`, up/down on
/// `y`, with up and left negative; opposing directions held together
/// cancel to `0`.
pub fn dpad_hat(buttons: XInputButtons) -> (r: (i32, i32))
    ensures
        r.0 == hat_axis(
            has_all16(buttons@, XInputButtons::DPAD_LEFT),
            has_all16(buttons@, XInputButtons::DPAD_RIGHT),
        ),
        r.1 == hat_axis(
            has_all16(buttons@, XInputButtons::DPAD_UP),
            has_all16(buttons@, XInputButtons::DPAD_DOWN),
        ),
{
    let hat_x = match (
        buttons.contains(XInputButtons::DPAD_LEFT),
        buttons.contains(XInputButtons::DPAD_RIGHT),
    ) {
        (true, false) => -1,
        (false, true) => 1,
        _ => 0,
    };
    let hat_y = match (
        buttons.contains(XInputButtons::DPAD_UP),
        buttons.contains(XInputButtons::DPAD_DOWN),
    ) {
        (true, false) => -1,
        (false, true) => 1,
        _ => 0,
    };
    (hat_x, hat_y)
}

/// A key of the evdev gamepad that presents the pad on Linux, named after
/// the kernel's `BTN_*` gamepad codes.
#[derive(Debug, Clone, Copy, PartialEq, Eq, Structural)]
pub enum PadKey {
    A,
    B,
    X,
    Y,
    /// Left bumper.
    TL,
    /// Right bumper.
    TR,
    Select,
    Start,
    Mode,
    ThumbL,
    ThumbR,
}

/// An absolute axis of the evdev gamepad: the sticks, the triggers (`Z`,
/// `RZ`) and the D-pad hat.
#[derive(Debug, Clone, Copy, PartialEq, Eq, Structural)]
pub enum PadAxis {
    X,
    Y,
    RX,
    RY,
    Z,
    RZ,
    HatX0,
    HatY0,
}

/// The XInput button that each evdev key reports.
pub open spec fn pad_key_mask(k: PadKey) -> u16 {
    match k {
        PadKey::A => XInputButtons::A,
        PadKey::B => XInputButtons::B,
        PadKey::X => XInputButtons::X,
        PadKey::Y => XInputButtons::Y,
        PadKey::TL => XInputButtons::LEFT_BUMPER,
        PadKey::TR => XInputButtons::RIGHT_BUMPER,
        PadKey::Select => XInputButtons::BACK,
        PadKey::Start => XInputButtons::START,
        PadKey::Mode => XInputButtons::GUIDE,
        PadKey::ThumbL => XInputButtons::LEFT_THUMB,
        PadKey::ThumbR => XInputButtons::RIGHT_THUMB,
    }
}

/// The keys of one update, in the order they are sent.
pub open spec fn pad_key_order() -> Seq<PadKey> {
    seq![
        PadKey::A,
        PadKey::B,
        PadKey::X,
        PadKey::Y,
        PadKey::TL,
        PadKey::TR,
        PadKey::Select,
        PadKey::Start,
        PadKey::Mode,
        PadKey::ThumbL,
        PadKey::ThumbR,
    ]
}

/// The key events of one update: every key, in order, pressed exactly when
/// its XInput button is set in `buttons`.
pub open spec fn pad_key_events(buttons: u16) -> Seq<(PadKey, bool)> {
    pad_key_order().map_values(|k: PadKey| (k, has_all16(buttons, pad_key_mask(k))))
}

/// The axis events of one update, in the order they are sent: the four
/// stick axes and the two triggers as they are, then the D-pad as a hat
/// (see [`dpad_hat`]).
pub open spec fn pad_axis_events(s: XInputState) -> Seq<(PadAxis, i32)> {
    let b = s.buttons@;
    seq![
        (PadAxis::X, s.thumb_lx as i32),
        (PadAxis::Y, s.thumb_ly as i32),
        (PadAxis::RX, s.thumb_rx as i32),
        (PadAxis::RY, s.thumb_ry as i32),
        (PadAxis::Z, s.left_trigger as i32),
        (PadAxis::RZ, s.right_trigger as i32),
        (PadAxis::HatX0, hat_axis(
            has_all16(b, XInputButtons::DPAD_LEFT),
            has_all16(b, XInputButtons::DPAD_RIGHT),
        )),
        (PadAxis::HatY0, hat_axis(
            has_all16(b, XInputButtons::DPAD_UP),
            has_all16(b, XInputButtons::DPAD_DOWN),
        )),
    ]
}

/// The evdev events that present one [`XInputState`]: key presses and
/// releases, then absolute axis values; a sync report follows them.
#[derive(Debug, Clone, PartialEq, Eq)]
pub struct PadFrame {
    pub keys: Vec<(PadKey, bool)>,
    pub axes: Vec<(PadAxis, i32)>,
}

/// The evdev events for `state` (see [`pad_key_events`] and
/// [`pad_axis_events`]).
pub fn pad_frame(state: &XInputState) -> (r: PadFrame)
    ensures
        r.keys@ == pad_key_events(state.buttons@),
        r.axes@ == pad_axis_events(*state),
{
    let b = state.buttons;
    let keys = vec![
        (PadKey::A, b.contains(XInputButtons::A)),
        (PadKey::B, b.contains(XInputButtons::B)),
        (PadKey::X, b.contains(XInputButtons::X)),
        (PadKey::Y, b.contains(XInputButtons::Y)),
        (PadKey::TL, b.contains(XInputButtons::LEFT_BUMPER)),
        (PadKey::TR, b.contains(XInputButtons::RIGHT_BUMPER)),
        (PadKey::Select, b.contains(XInputButtons::BACK)),
        (PadKey::Start, b.contains(XInputButtons::START)),
        (PadKey::Mode, b.contains(XInputButtons::GUIDE)),
        (PadKey::ThumbL, b.contains(XInputButtons::LEFT_THUMB)),
        (PadKey::ThumbR, b.contains(XInputButtons::RIGHT_THUMB)),
    ];
    let (hat_x, hat_y) = dpad_hat(b);
    let axes = vec![
        (PadAxis::X, state.thumb_lx as i32),
        (PadAxis::Y, state.thumb_ly as i32),
        (PadAxis::RX, state.thumb_rx as i32),
        (PadAxis::RY, state.thumb_ry as i32),
        (PadAxis::Z, state.left_trigger as i32),
        (PadAxis::RZ, state.right_trigger as i32),
        (PadAxis::HatX0, hat_x),
        (PadAxis::HatY0, hat_y),
    ];
    assert(keys@ =~= pad_key_events(b@));
    assert(axes@ =~= pad_axis_events(*state));
    PadFrame { keys, axes }
}

/// Each evdev key reports the XInput button of its kernel meaning, and the
/// axes carry the sticks, the triggers and the D-pad as a hat: for every
/// state, key `A`/`B`/`X`/`Y` is pressed exactly when that face button is,
/// `TL`/`TR` when the left/right bumper is, `Select` when Back is, `Start`
/// when Start is, `Mode` when Guide is, `ThumbL`/`ThumbR` when the
/// left/right thumb click is; `X`/`Y`/`RX`/`RY` are the thumb sticks,
/// `Z`/`RZ` the left/right triggers, and the hat reads `-1` for left (or
/// up) alone, `1` for right (or down) alone and `0` otherwise.
pub proof fn lemma_pad_events_by_meaning(s: XInputState)
    ensures
        pad_key_events(s.buttons@) == seq![
            (PadKey::A, s.buttons@ & XInputButtons::A == XInputButtons::A),
            (PadKey::B, s.buttons@ & XInputButtons::B == XInputButtons::B),
            (PadKey::X, s.buttons@ & XInputButtons::X == XInputButtons::X),
            (PadKey::Y, s.buttons@ & XInputButtons::Y == XInputButtons::Y),
            (PadKey::TL, s.buttons@ & XInputButtons::LEFT_BUMPER == XInputButtons::LEFT_BUMPER),
            (PadKey::TR, s.buttons@ & XInputButtons::RIGHT_BUMPER == XInputButtons::RIGHT_BUMPER),
            (PadKey::Select, s.buttons@ & XInputButtons::BACK == XInputButtons::BACK),
            (PadKey::Start, s.buttons@ & XInputButtons::START == XInputButtons::START),
            (PadKey::Mode, s.buttons@ & XInputButtons::GUIDE == XInputButtons::GUIDE),
            (PadKey::ThumbL, s.buttons@ & XInputButtons::LEFT_THUMB == XInputButtons::LEFT_THUMB),
            (PadKey::ThumbR, s.buttons@ & XInputButtons::RIGHT_THUMB
                == XInputButtons::RIGHT_THUMB),
        ],
        ({
            let b = s.buttons@;
            let left = b & XInputButtons::DPAD_LEFT == XInputButtons::DPAD_LEFT;
            let right = b & XInputButtons::DPAD_RIGHT == XInputButtons::DPAD_RIGHT;
            let up = b & XInputButtons::DPAD_UP == XInputButtons::DPAD_UP;
            let down = b & XInputButtons::DPAD_DOWN == XInputButtons::DPAD_DOWN;
            pad_axis_events(s) == seq![
                (PadAxis::X, s.thumb_lx as i32),
                (PadAxis::Y, s.thumb_ly as i32),
                (PadAxis::RX, s.thumb_rx as i32),
                (PadAxis::RY, s.thumb_ry as i32),
                (PadAxis::Z, s.left_trigger as i32),
                (PadAxis::RZ, s.right_trigger as i32),
                (PadAxis::HatX0, if left && !right {
                    -1i32
                } else if right && !left {
                    1i32
                } else {
                    0i32
                }),
                (PadAxis::HatY0, if up && !down {
                    -1i32
                } else if down && !up {
                    1i32
                } else {
                    0i32
                }),
            ]
        }),
{
    assert(pad_key_events(s.buttons@) =~= seq![
        (PadKey::A, s.buttons@ & XInputButtons::A == XInputButtons::A),
        (PadKey::B, s.buttons@ & XInputButtons::B == XInputButtons::B),
        (PadKey::X, s.buttons@ & XInputButtons::X == XInputButtons::X),
        (PadKey::Y, s.buttons@ & XInputButtons::Y == XInputButtons::Y),
        (PadKey::TL, s.buttons@ & XInputButtons::LEFT_BUMPER == XInputButtons::LEFT_BUMPER),
        (PadKey::TR, s.buttons@ & XInputButtons::RIGHT_BUMPER == XInputButtons::RIGHT_BUMPER),
        (PadKey::Select, s.buttons@ & XInputButtons::BACK == XInputButtons::BACK),
        (PadKey::Start, s.buttons@ & XInputButtons::START == XInputButtons::START),
        (PadKey::Mode, s.buttons@ & XInputButtons::GUIDE == XInputButtons::GUIDE),
        (PadKey::ThumbL, s.buttons@ & XInputButtons::LEFT_THUMB == XInputButtons::LEFT_THUMB),
        (PadKey::ThumbR, s.buttons@ & XInputButtons::RIGHT_THUMB == XInputButtons::RIGHT_THUMB),
    ]);
}

/// A hat axis reads `-1` exactly when only its negative direction is held,
/// `1` exactly when only its positive one is, and `0` when neither or both
/// are; swapping the two directions negates it.
pub proof fn lemma_hat_axis(negative: bool, positive: bool)
    ensures
        (hat_axis(negative, positive) == -1) == (negative && !positive),
        (hat_axis(negative, positive) == 1) == (positive && !negative),
        (hat_axis(negative, positive) == 0) == (negative == positive),
        hat_axis(positive, negative) == -hat_axis(negative, positive),
{
}

} // verus!
