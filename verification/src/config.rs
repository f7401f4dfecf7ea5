//! Physical-control-to-XInput button mapping.

use crate::buttons::{has_all, has_all16, ButtonFlags, XInputButtons};
use vstd::prelude::*;

verus! {

/// Every physical digital control that can be bound to an XInput button.
#[derive(Debug, Clone, Copy, PartialEq, Eq, Hash, Structural)]
pub enum LogicalButton {
    A,
    B,
    X,
    Y,
    Dots,
    Start,
    BackSelectView,
    Guide,
    LeftBumper,
    RightBumper,
    /// Not really a button: the right stick's capacitive touch sensor.
    RightStickCapTouch,
    /// Not really a button: the left stick's capacitive touch sensor.
    LeftStickCapTouch,
    LeftStickClick,
    /// The real right thumbstick click.
    RightStickClick,
    RightPadTouch,
    RightPadClick,
    DpadUp,
    DpadDown,
    DpadLeft,
    DpadRight,
    LeftPaddleUpper,
    LeftPaddleLower,
    RightPaddleUpper,
    RightPaddleLower,
}

impl LogicalButton {
    pub const ALL: [LogicalButton; 24] = [
        LogicalButton::A,
        LogicalButton::B,
        LogicalButton::X,
        LogicalButton::Y,
        LogicalButton::Dots,
        LogicalButton::Start,
        LogicalButton::BackSelectView,
        LogicalButton::Guide,
        LogicalButton::LeftBumper,
        LogicalButton::RightBumper,
        LogicalButton::RightStickCapTouch,
        LogicalButton::LeftStickCapTouch,
        LogicalButton::LeftStickClick,
        LogicalButton::RightStickClick,
        LogicalButton::RightPadTouch,
        LogicalButton::RightPadClick,
        LogicalButton::DpadUp,
        LogicalButton::DpadDown,
        LogicalButton::DpadLeft,
        LogicalButton::DpadRight,
        LogicalButton::LeftPaddleUpper,
        LogicalButton::LeftPaddleLower,
        LogicalButton::RightPaddleUpper,
        LogicalButton::RightPaddleLower,
    ];
}

/// The [`ButtonFlags`] mask of each physical control: the flag of the same
/// name.
pub open spec fn logical_flag(b: LogicalButton) -> u32 {
    match b {
        LogicalButton::A => ButtonFlags::A,
        LogicalButton::B => ButtonFlags::B,
        LogicalButton::X => ButtonFlags::X,
        LogicalButton::Y => ButtonFlags::Y,
        LogicalButton::Dots => ButtonFlags::DOTS,
        LogicalButton::Start => ButtonFlags::START,
        LogicalButton::BackSelectView => ButtonFlags::BACK_SELECT_VIEW,
        LogicalButton::Guide => ButtonFlags::GUIDE,
        LogicalButton::LeftBumper => ButtonFlags::LEFT_BUMPER,
        LogicalButton::RightBumper => ButtonFlags::RIGHT_BUMPER,
        LogicalButton::RightStickCapTouch => ButtonFlags::RIGHT_STICK_CAP_TOUCH,
        LogicalButton::LeftStickCapTouch => ButtonFlags::LEFT_STICK_CAP_TOUCH,
        LogicalButton::LeftStickClick => ButtonFlags::LEFT_STICK_CLICK,
        LogicalButton::RightStickClick => ButtonFlags::RIGHT_STICK_CLICK,
        LogicalButton::RightPadTouch => ButtonFlags::RIGHT_PAD_TOUCH,
        LogicalButton::RightPadClick => ButtonFlags::RIGHT_PAD_CLICK,
        LogicalButton::DpadUp => ButtonFlags::DPAD_UP,
        LogicalButton::DpadDown => ButtonFlags::DPAD_DOWN,
        LogicalButton::DpadLeft => ButtonFlags::DPAD_LEFT,
        LogicalButton::DpadRight => ButtonFlags::DPAD_RIGHT,
        LogicalButton::LeftPaddleUpper => ButtonFlags::LEFT_PADDLE_UPPER,
        LogicalButton::LeftPaddleLower => ButtonFlags::LEFT_PADDLE_LOWER,
        LogicalButton::RightPaddleUpper => ButtonFlags::RIGHT_PADDLE_UPPER,
        LogicalButton::RightPaddleLower => ButtonFlags::RIGHT_PADDLE_LOWER,
    }
}

impl LogicalButton {
    /// The [`ButtonFlags`] mask that reports this control as pressed.
    pub fn flag(self) -> (r: u32)
        ensures
            r == logical_flag(self),
    {
        match self {
            LogicalButton::A => ButtonFlags::A,
            LogicalButton::B => ButtonFlags::B,
            LogicalButton::X => ButtonFlags::X,
            LogicalButton::Y => ButtonFlags::Y,
            LogicalButton::Dots => ButtonFlags::DOTS,
            LogicalButton::Start => ButtonFlags::START,
            LogicalButton::BackSelectView => ButtonFlags::BACK_SELECT_VIEW,
            LogicalButton::Guide => ButtonFlags::GUIDE,
            LogicalButton::LeftBumper => ButtonFlags::LEFT_BUMPER,
            LogicalButton::RightBumper => ButtonFlags::RIGHT_BUMPER,
            LogicalButton::RightStickCapTouch => ButtonFlags::RIGHT_STICK_CAP_TOUCH,
            LogicalButton::LeftStickCapTouch => ButtonFlags::LEFT_STICK_CAP_TOUCH,
            LogicalButton::LeftStickClick => ButtonFlags::LEFT_STICK_CLICK,
            LogicalButton::RightStickClick => ButtonFlags::RIGHT_STICK_CLICK,
            LogicalButton::RightPadTouch => ButtonFlags::RIGHT_PAD_TOUCH,
            LogicalButton::RightPadClick => ButtonFlags::RIGHT_PAD_CLICK,
            LogicalButton::DpadUp => ButtonFlags::DPAD_UP,
            LogicalButton::DpadDown => ButtonFlags::DPAD_DOWN,
            LogicalButton::DpadLeft => ButtonFlags::DPAD_LEFT,
            LogicalButton::DpadRight => ButtonFlags::DPAD_RIGHT,
            LogicalButton::LeftPaddleUpper => ButtonFlags::LEFT_PADDLE_UPPER,
            LogicalButton::LeftPaddleLower => ButtonFlags::LEFT_PADDLE_LOWER,
            LogicalButton::RightPaddleUpper => ButtonFlags::RIGHT_PADDLE_UPPER,
            LogicalButton::RightPaddleLower => ButtonFlags::RIGHT_PADDLE_LOWER,
        }
    }
}

/// Every XInput button a physical control can be bound to.
#[derive(Debug, Clone, Copy, PartialEq, Eq, Hash, Structural)]
pub enum XInputButton {
    A,
    B,
    X,
    Y,
    LeftBumper,
    RightBumper,
    Back,
    Start,
    Guide,
    LeftThumb,
    RightThumb,
    DpadUp,
    DpadDown,
    DpadLeft,
    DpadRight,
}

impl XInputButton {
    pub const ALL: [XInputButton; 15] = [
        XInputButton::A,
        XInputButton::B,
        XInputButton::X,
        XInputButton::Y,
        XInputButton::LeftBumper,
        XInputButton::RightBumper,
        XInputButton::Back,
        XInputButton::Start,
        XInputButton::Guide,
        XInputButton::LeftThumb,
        XInputButton::RightThumb,
        XInputButton::DpadUp,
        XInputButton::DpadDown,
        XInputButton::DpadLeft,
        XInputButton::DpadRight,
    ];
}

/// The [`XInputButtons`] mask of each XInput button: the button of the same
/// name.
pub open spec fn xinput_bit(b: XInputButton) -> u16 {
    match b {
        XInputButton::A => XInputButtons::A,
        XInputButton::B => XInputButtons::B,
        XInputButton::X => XInputButtons::X,
        XInputButton::Y => XInputButtons::Y,
        XInputButton::LeftBumper => XInputButtons::LEFT_BUMPER,
        XInputButton::RightBumper => XInputButtons::RIGHT_BUMPER,
        XInputButton::Back => XInputButtons::BACK,
        XInputButton::Start => XInputButtons::START,
        XInputButton::Guide => XInputButtons::GUIDE,
        XInputButton::LeftThumb => XInputButtons::LEFT_THUMB,
        XInputButton::RightThumb => XInputButtons::RIGHT_THUMB,
        XInputButton::DpadUp => XInputButtons::DPAD_UP,
        XInputButton::DpadDown => XInputButtons::DPAD_DOWN,
        XInputButton::DpadLeft => XInputButtons::DPAD_LEFT,
        XInputButton::DpadRight => XInputButtons::DPAD_RIGHT,
    }
}

impl XInputButton {
    /// The [`XInputButtons`] mask of this button.
    pub fn bit(self) -> (r: u16)
        ensures
            r == xinput_bit(self),
    {
        match self {
            XInputButton::A => XInputButtons::A,
            XInputButton::B => XInputButtons::B,
            XInputButton::X => XInputButtons::X,
            XInputButton::Y => XInputButtons::Y,
            XInputButton::LeftBumper => XInputButtons::LEFT_BUMPER,
            XInputButton::RightBumper => XInputButtons::RIGHT_BUMPER,
            XInputButton::Back => XInputButtons::BACK,
            XInputButton::Start => XInputButtons::START,
            XInputButton::Guide => XInputButtons::GUIDE,
            XInputButton::LeftThumb => XInputButtons::LEFT_THUMB,
            XInputButton::RightThumb => XInputButtons::RIGHT_THUMB,
            XInputButton::DpadUp => XInputButtons::DPAD_UP,
            XInputButton::DpadDown => XInputButtons::DPAD_DOWN,
            XInputButton::DpadLeft => XInputButtons::DPAD_LEFT,
            XInputButton::DpadRight => XInputButtons::DPAD_RIGHT,
        }
    }
}

/// One physical-button-to-XInput-button binding. Absence from a binding
/// list means "unmapped".
#[derive(Debug, Clone, Copy, PartialEq, Eq, Structural)]
pub struct ButtonBinding {
    pub button: LogicalButton,
    pub target: XInputButton,
}

/// The default profile's bindings: the classic face buttons, bumpers,
/// Start/Back/Guide, the D-pad, and both stick clicks onto their XInput
/// namesakes. The back paddles, the "dots" button, the right touchpad's
/// touch and click flags and both sticks' cap-touch sensors stay unbound.
pub open spec fn default_bindings_spec() -> Seq<ButtonBinding> {
    seq![
        ButtonBinding { button: LogicalButton::A, target: XInputButton::A },
        ButtonBinding { button: LogicalButton::B, target: XInputButton::B },
        ButtonBinding { button: LogicalButton::X, target: XInputButton::X },
        ButtonBinding { button: LogicalButton::Y, target: XInputButton::Y },
        ButtonBinding { button: LogicalButton::LeftBumper, target: XInputButton::LeftBumper },
        ButtonBinding { button: LogicalButton::RightBumper, target: XInputButton::RightBumper },
        ButtonBinding { button: LogicalButton::Start, target: XInputButton::Start },
        ButtonBinding { button: LogicalButton::BackSelectView, target: XInputButton::Back },
        ButtonBinding { button: LogicalButton::Guide, target: XInputButton::Guide },
        ButtonBinding { button: LogicalButton::LeftStickClick, target: XInputButton::LeftThumb },
        ButtonBinding { button: LogicalButton::RightStickClick, target: XInputButton::RightThumb },
        ButtonBinding { button: LogicalButton::DpadUp, target: XInputButton::DpadUp },
        ButtonBinding { button: LogicalButton::DpadDown, target: XInputButton::DpadDown },
        ButtonBinding { button: LogicalButton::DpadLeft, target: XInputButton::DpadLeft },
        ButtonBinding { button: LogicalButton::DpadRight, target: XInputButton::DpadRight },
    ]
}

/// The bindings of the default profile (see [`default_bindings_spec`]).
pub fn default_bindings() -> (r: Vec<ButtonBinding>)
    ensures
        r@ == default_bindings_spec(),
{
    let r = vec![
        ButtonBinding { button: LogicalButton::A, target: XInputButton::A },
        ButtonBinding { button: LogicalButton::B, target: XInputButton::B },
        ButtonBinding { button: LogicalButton::X, target: XInputButton::X },
        ButtonBinding { button: LogicalButton::Y, target: XInputButton::Y },
        ButtonBinding { button: LogicalButton::LeftBumper, target: XInputButton::LeftBumper },
        ButtonBinding { button: LogicalButton::RightBumper, target: XInputButton::RightBumper },
        ButtonBinding { button: LogicalButton::Start, target: XInputButton::Start },
        ButtonBinding { button: LogicalButton::BackSelectView, target: XInputButton::Back },
        ButtonBinding { button: LogicalButton::Guide, target: XInputButton::Guide },
        ButtonBinding { button: LogicalButton::LeftStickClick, target: XInputButton::LeftThumb },
        ButtonBinding { button: LogicalButton::RightStickClick, target: XInputButton::RightThumb },
        ButtonBinding { button: LogicalButton::DpadUp, target: XInputButton::DpadUp },
        ButtonBinding { button: LogicalButton::DpadDown, target: XInputButton::DpadDown },
        ButtonBinding { button: LogicalButton::DpadLeft, target: XInputButton::DpadLeft },
        ButtonBinding { button: LogicalButton::DpadRight, target: XInputButton::DpadRight },
    ];
    assert(r@ =~= default_bindings_spec());
    r
}

/// `true` when binding `b` fires for the pressed set `pressed`.
pub open spec fn binding_fires(b: ButtonBinding, pressed: u32) -> bool {
    has_all(pressed, logical_flag(b.button))
}

/// The XInput buttons that `bindings` produce for the physical buttons
/// `pressed`: the union of the targets of every binding whose physical
/// control is pressed.
pub open spec fn mapped_bits(bindings: Seq<ButtonBinding>, pressed: u32) -> u16
    decreases bindings.len(),
{
    if bindings.len() == 0 {
        0
    } else {
        let last = bindings.last();
        mapped_bits(bindings.drop_last(), pressed) | (if binding_fires(last, pressed) {
            xinput_bit(last.target)
        } else {
            0
        })
    }
}

/// `true` when `m` has exactly one bit set.
pub open spec fn one_bit16(m: u16) -> bool {
    m != 0 && m & ((m - 1) as u16) == 0
}

/// `true` when `m` has exactly one bit set.
pub open spec fn one_bit32(m: u32) -> bool {
    m != 0 && m & ((m - 1) as u32) == 0
}

/// The XInput button whose mask is `m`, if any.
pub open spec fn xinput_from_bit(m: u16) -> Option<XInputButton> {
    if m == 0x0001 {
        Some(XInputButton::A)
    } else if m == 0x0002 {
        Some(XInputButton::B)
    } else if m == 0x0004 {
        Some(XInputButton::X)
    } else if m == 0x0008 {
        Some(XInputButton::Y)
    } else if m == 0x0010 {
        Some(XInputButton::LeftBumper)
    } else if m == 0x0020 {
        Some(XInputButton::RightBumper)
    } else if m == 0x0040 {
        Some(XInputButton::Back)
    } else if m == 0x0080 {
        Some(XInputButton::Start)
    } else if m == 0x0100 {
        Some(XInputButton::Guide)
    } else if m == 0x0200 {
        Some(XInputButton::LeftThumb)
    } else if m == 0x0400 {
        Some(XInputButton::RightThumb)
    } else if m == 0x0800 {
        Some(XInputButton::DpadUp)
    } else if m == 0x1000 {
        Some(XInputButton::DpadDown)
    } else if m == 0x2000 {
        Some(XInputButton::DpadLeft)
    } else if m == 0x4000 {
        Some(XInputButton::DpadRight)
    } else {
        None
    }
}

/// The physical control whose mask is `m`, if any.
pub open spec fn logical_from_flag(m: u32) -> Option<LogicalButton> {
    if m == 0x0000_0001 {
        Some(LogicalButton::A)
    } else if m == 0x0000_0002 {
        Some(LogicalButton::B)
    } else if m == 0x0000_0004 {
        Some(LogicalButton::X)
    } else if m == 0x0000_0008 {
        Some(LogicalButton::Y)
    } else if m == 0x0000_0010 {
        Some(LogicalButton::Dots)
    } else if m == 0x0000_0020 {
        Some(LogicalButton::RightStickClick)
    } else if m == 0x0000_0040 {
        Some(LogicalButton::Start)
    } else if m == 0x0000_0080 {
        Some(LogicalButton::RightPaddleUpper)
    } else if m == 0x0000_0100 {
        Some(LogicalButton::RightPaddleLower)
    } else if m == 0x0000_0200 {
        Some(LogicalButton::RightBumper)
    } else if m == 0x0000_0400 {
        Some(LogicalButton::DpadDown)
    } else if m == 0x0000_0800 {
        Some(LogicalButton::DpadRight)
    } else if m == 0x0000_1000 {
        Some(LogicalButton::DpadLeft)
    } else if m == 0x0000_2000 {
        Some(LogicalButton::DpadUp)
    } else if m == 0x0000_4000 {
        Some(LogicalButton::BackSelectView)
    } else if m == 0x0000_8000 {
        Some(LogicalButton::LeftStickClick)
    } else if m == 0x0001_0000 {
        Some(LogicalButton::Guide)
    } else if m == 0x0002_0000 {
        Some(LogicalButton::LeftPaddleUpper)
    } else if m == 0x0004_0000 {
        Some(LogicalButton::LeftPaddleLower)
    } else if m == 0x0008_0000 {
        Some(LogicalButton::LeftBumper)
    } else if m == 0x0010_0000 {
        Some(LogicalButton::RightStickCapTouch)
    } else if m == 0x0020_0000 {
        Some(LogicalButton::RightPadTouch)
    } else if m == 0x0040_0000 {
        Some(LogicalButton::RightPadClick)
    } else if m == 0x0100_0000 {
        Some(LogicalButton::LeftStickCapTouch)
    } else {
        None
    }
}

proof fn lemma_xinput_masks_one_bit()
    by (bit_vector)
    ensures
        one_bit16(0x0001u16),
        one_bit16(0x0002u16),
        one_bit16(0x0004u16),
        one_bit16(0x0008u16),
        one_bit16(0x0010u16),
        one_bit16(0x0020u16),
        one_bit16(0x0040u16),
        one_bit16(0x0080u16),
        one_bit16(0x0100u16),
        one_bit16(0x0200u16),
        one_bit16(0x0400u16),
        one_bit16(0x0800u16),
        one_bit16(0x1000u16),
        one_bit16(0x2000u16),
        one_bit16(0x4000u16),
        0x0001u16 & !0x7fffu16 == 0,
        0x0002u16 & !0x7fffu16 == 0,
        0x0004u16 & !0x7fffu16 == 0,
        0x0008u16 & !0x7fffu16 == 0,
        0x0010u16 & !0x7fffu16 == 0,
        0x0020u16 & !0x7fffu16 == 0,
        0x0040u16 & !0x7fffu16 == 0,
        0x0080u16 & !0x7fffu16 == 0,
        0x0100u16 & !0x7fffu16 == 0,
        0x0200u16 & !0x7fffu16 == 0,
        0x0400u16 & !0x7fffu16 == 0,
        0x0800u16 & !0x7fffu16 == 0,
        0x1000u16 & !0x7fffu16 == 0,
        0x2000u16 & !0x7fffu16 == 0,
        0x4000u16 & !0x7fffu16 == 0,
        0u16 & !0x7fffu16 == 0,
{
}

proof fn lemma_logical_masks_one_bit()
    by (bit_vector)
    ensures
        one_bit32(0x00000001u32),
        one_bit32(0x00000002u32),
        one_bit32(0x00000004u32),
        one_bit32(0x00000008u32),
        one_bit32(0x00000010u32),
        one_bit32(0x00000020u32),
        one_bit32(0x00000040u32),
        one_bit32(0x00000080u32),
        one_bit32(0x00000100u32),
        one_bit32(0x00000200u32),
        one_bit32(0x00000400u32),
        one_bit32(0x00000800u32),
        one_bit32(0x00001000u32),
        one_bit32(0x00002000u32),
        one_bit32(0x00004000u32),
        one_bit32(0x00008000u32),
        one_bit32(0x00010000u32),
        one_bit32(0x00020000u32),
        one_bit32(0x00040000u32),
        one_bit32(0x00080000u32),
        one_bit32(0x00100000u32),
        one_bit32(0x00200000u32),
        one_bit32(0x00400000u32),
        one_bit32(0x00800000u32),
        one_bit32(0x01000000u32),
        one_bit32(0x02000000u32),
{
}

proof fn lemma_one_bits16(a: u16, b: u16, x: u16, y: u16)
    by (bit_vector)
    requires
        one_bit16(a),
        one_bit16(b),
    ensures
        (a & b == a) == (a == b),
        (b & a == a) == (a == b),
        a != b ==> a & b == 0,
        ((x | y) & a == a) == ((x & a == a) || (y & a == a)),
        0u16 & a != a,
        a <= 0x4000 ==> a & !0x7fffu16 == 0,
{
}

proof fn lemma_one_bits32(a: u32, b: u32)
    by (bit_vector)
    requires
        one_bit32(a),
        one_bit32(b),
    ensures
        (a & b == a) == (a == b),
        (b & a == a) == (a == b),
        a != b ==> a & b == 0,
        a <= 0x0200_0000 ==> a & !0x03ff_ffffu32 == 0,
{
}

/// The wire bit of every physical control and the XInput bit of every
/// XInput button. Controls: A, B, X, Y, dots, right stick click, Start and
/// the upper right paddle are report byte 2 (bits 0-7); the lower right
/// paddle, right bumper, D-pad down/right/left/up, Back and left stick
/// click are byte 3 (bits 8-15); Guide, the left paddles, left bumper,
/// right stick cap touch and right pad touch/click are byte 4 (bits
/// 16-22); the left stick cap touch is bit 24. The XInput buttons run from
/// A at bit 0 through the bumpers, Back, Start, Guide and the thumb clicks
/// to the D-pad (up, down, left, right) at bits 11-14.
pub proof fn lemma_button_bit_tables()
    ensures
        logical_flag(LogicalButton::A) == 0x0000_0001u32,
        logical_flag(LogicalButton::B) == 0x0000_0002u32,
        logical_flag(LogicalButton::X) == 0x0000_0004u32,
        logical_flag(LogicalButton::Y) == 0x0000_0008u32,
        logical_flag(LogicalButton::Dots) == 0x0000_0010u32,
        logical_flag(LogicalButton::RightStickClick) == 0x0000_0020u32,
        logical_flag(LogicalButton::Start) == 0x0000_0040u32,
        logical_flag(LogicalButton::RightPaddleUpper) == 0x0000_0080u32,
        logical_flag(LogicalButton::RightPaddleLower) == 0x0000_0100u32,
        logical_flag(LogicalButton::RightBumper) == 0x0000_0200u32,
        logical_flag(LogicalButton::DpadDown) == 0x0000_0400u32,
        logical_flag(LogicalButton::DpadRight) == 0x0000_0800u32,
        logical_flag(LogicalButton::DpadLeft) == 0x0000_1000u32,
        logical_flag(LogicalButton::DpadUp) == 0x0000_2000u32,
        logical_flag(LogicalButton::BackSelectView) == 0x0000_4000u32,
        logical_flag(LogicalButton::LeftStickClick) == 0x0000_8000u32,
        logical_flag(LogicalButton::Guide) == 0x0001_0000u32,
        logical_flag(LogicalButton::LeftPaddleUpper) == 0x0002_0000u32,
        logical_flag(LogicalButton::LeftPaddleLower) == 0x0004_0000u32,
        logical_flag(LogicalButton::LeftBumper) == 0x0008_0000u32,
        logical_flag(LogicalButton::RightStickCapTouch) == 0x0010_0000u32,
        logical_flag(LogicalButton::RightPadTouch) == 0x0020_0000u32,
        logical_flag(LogicalButton::RightPadClick) == 0x0040_0000u32,
        logical_flag(LogicalButton::LeftStickCapTouch) == 0x0100_0000u32,
        xinput_bit(XInputButton::A) == 0x0001u16,
        xinput_bit(XInputButton::B) == 0x0002u16,
        xinput_bit(XInputButton::X) == 0x0004u16,
        xinput_bit(XInputButton::Y) == 0x0008u16,
        xinput_bit(XInputButton::LeftBumper) == 0x0010u16,
        xinput_bit(XInputButton::RightBumper) == 0x0020u16,
        xinput_bit(XInputButton::Back) == 0x0040u16,
        xinput_bit(XInputButton::Start) == 0x0080u16,
        xinput_bit(XInputButton::Guide) == 0x0100u16,
        xinput_bit(XInputButton::LeftThumb) == 0x0200u16,
        xinput_bit(XInputButton::RightThumb) == 0x0400u16,
        xinput_bit(XInputButton::DpadUp) == 0x0800u16,
        xinput_bit(XInputButton::DpadDown) == 0x1000u16,
        xinput_bit(XInputButton::DpadLeft) == 0x2000u16,
        xinput_bit(XInputButton::DpadRight) == 0x4000u16,
{
}

/// Every XInput button is exactly one defined [`XInputButtons`] bit, and
/// distinct buttons have distinct bits.
pub proof fn lemma_xinput_bit_is_one_bit(t: XInputButton, u: XInputButton)
    ensures
        one_bit16(xinput_bit(t)),
        xinput_bit(t) & !XInputButtons::ALL_BITS == 0,
        has_all16(xinput_bit(u), xinput_bit(t)) == (t == u),
        t != u ==> xinput_bit(t) & xinput_bit(u) == 0,
{
    lemma_xinput_masks_one_bit();
    assert(xinput_from_bit(xinput_bit(t)) == Some(t));
    assert(xinput_from_bit(xinput_bit(u)) == Some(u));
    lemma_one_bits16(xinput_bit(t), xinput_bit(u), 0, 0);
}

/// Every physical control is exactly one defined [`ButtonFlags`] bit, and
/// distinct controls have distinct bits. The table covers 24 of the 26
/// `ButtonFlags` flags: all but the left pad's click and touch, which no
/// control can be bound to.
pub proof fn lemma_logical_flag_is_one_bit(b: LogicalButton, c: LogicalButton)
    ensures
        one_bit32(logical_flag(b)),
        logical_flag(b) & !ButtonFlags::ALL_BITS == 0,
        has_all(logical_flag(c), logical_flag(b)) == (b == c),
        b != c ==> logical_flag(b) & logical_flag(c) == 0,
{
    lemma_logical_masks_one_bit();
    assert(logical_from_flag(logical_flag(b)) == Some(b));
    assert(logical_from_flag(logical_flag(c)) == Some(c));
    lemma_one_bits32(logical_flag(b), logical_flag(c));
}

/// An XInput button is in the mapped set exactly when some binding with
/// that target fires; the mapped set holds no undefined bit.
pub proof fn lemma_mapped_bits_members(bindings: Seq<ButtonBinding>, pressed: u32, t: XInputButton)
    ensures
        has_all16(mapped_bits(bindings, pressed), xinput_bit(t)) <==> exists|i: int|
            0 <= i < bindings.len() && #[trigger] bindings[i].target == t && binding_fires(
                bindings[i],
                pressed,
            ),
        mapped_bits(bindings, pressed) & !XInputButtons::ALL_BITS == 0,
    decreases bindings.len(),
{
    lemma_xinput_masks_one_bit();
    lemma_xinput_bit_is_one_bit(t, t);
    lemma_one_bits16(xinput_bit(t), xinput_bit(t), 0, 0);
    if bindings.len() > 0 {
        let init = bindings.drop_last();
        let last = bindings.last();
        lemma_mapped_bits_members(init, pressed, t);
        let x = mapped_bits(init, pressed);
        let y: u16 = if binding_fires(last, pressed) {
            xinput_bit(last.target)
        } else {
            0
        };
        assert(mapped_bits(bindings, pressed) == x | y);
        lemma_xinput_bit_is_one_bit(t, last.target);
        lemma_xinput_bit_is_one_bit(last.target, t);
        lemma_one_bits16(xinput_bit(t), xinput_bit(last.target), x, y);
        lemma_or_within16(x, y);
        assert(has_all16(y, xinput_bit(t)) == (binding_fires(last, pressed) && last.target == t));
        let ex = exists|i: int|
            0 <= i < bindings.len() && #[trigger] bindings[i].target == t && binding_fires(
                bindings[i],
                pressed,
            );
        if ex {
            let i = choose|i: int|
                0 <= i < bindings.len() && #[trigger] bindings[i].target == t && binding_fires(
                    bindings[i],
                    pressed,
                );
            if i < bindings.len() - 1 {
                assert(init[i].target == t);
                assert(has_all16(x, xinput_bit(t)));
            } else {
                assert(has_all16(y, xinput_bit(t)));
            }
        }
        if has_all16(x, xinput_bit(t)) {
            let i = choose|i: int|
                0 <= i < init.len() && #[trigger] init[i].target == t && binding_fires(
                    init[i],
                    pressed,
                );
            assert(bindings[i].target == t);
        }
        if has_all16(y, xinput_bit(t)) {
            assert(bindings[bindings.len() - 1].target == t);
        }
    }
}

proof fn lemma_or_within16(x: u16, y: u16)
    by (bit_vector)
    requires
        x & !0x7fffu16 == 0,
        y & !0x7fffu16 == 0 || y == 0,
    ensures
        (x | y) & !0x7fffu16 == 0,
{
}

/// Map the physical buttons `pressed` through `bindings`: every binding
/// whose physical control is pressed turns on its XInput target.
pub fn map_buttons(bindings: &Vec<ButtonBinding>, pressed: ButtonFlags) -> (r: XInputButtons)
    ensures
        r@ == mapped_bits(bindings@, pressed@),
        forall|t: XInputButton|
            #![trigger xinput_bit(t)]
            has_all16(r@, xinput_bit(t)) <==> exists|i: int|
                0 <= i < bindings@.len() && #[trigger] bindings@[i].target == t && binding_fires(
                    bindings@[i],
                    pressed@,
                ),
{
    let mut bits: u16 = 0;
    let mut i: usize = 0;
    while i < bindings.len()
        invariant
            i <= bindings@.len(),
            bits == mapped_bits(bindings@.subrange(0, i as int), pressed@),
        decreases bindings@.len() - i,
    {
        let binding = bindings[i];
        let add: u16 = if pressed.contains(binding.button.flag()) {
            binding.target.bit()
        } else {
            0
        };
        assert(bindings@.subrange(0, i + 1).drop_last() =~= bindings@.subrange(0, i as int));
        bits = bits | add;
        i = i + 1;
    }
    assert(bindings@.subrange(0, i as int) =~= bindings@);
    proof {
        assert forall|t: XInputButton|
            #![trigger xinput_bit(t)]
            has_all16(bits, xinput_bit(t)) <==> exists|i: int|
                0 <= i < bindings@.len() && #[trigger] bindings@[i].target == t && binding_fires(
                    bindings@[i],
                    pressed@,
                ) by {
            lemma_mapped_bits_members(bindings@, pressed@, t);
        }
    }
    XInputButtons { bits }
}

/// The flags of the physical controls that the default profile binds.
pub open spec fn default_bound_flags() -> u32 {
    ButtonFlags::A | ButtonFlags::B | ButtonFlags::X | ButtonFlags::Y | ButtonFlags::LEFT_BUMPER
        | ButtonFlags::RIGHT_BUMPER | ButtonFlags::START | ButtonFlags::BACK_SELECT_VIEW
        | ButtonFlags::GUIDE | ButtonFlags::LEFT_STICK_CLICK | ButtonFlags::RIGHT_STICK_CLICK
        | ButtonFlags::DPAD_UP | ButtonFlags::DPAD_DOWN | ButtonFlags::DPAD_LEFT
        | ButtonFlags::DPAD_RIGHT
}

proof fn lemma_no_single_bit_means_empty(m: u16)
    by (bit_vector)
    requires
        m & !0x7fffu16 == 0,
        m & 0x0001u16 != 0x0001u16,
        m & 0x0002u16 != 0x0002u16,
        m & 0x0004u16 != 0x0004u16,
        m & 0x0008u16 != 0x0008u16,
        m & 0x0010u16 != 0x0010u16,
        m & 0x0020u16 != 0x0020u16,
        m & 0x0040u16 != 0x0040u16,
        m & 0x0080u16 != 0x0080u16,
        m & 0x0100u16 != 0x0100u16,
        m & 0x0200u16 != 0x0200u16,
        m & 0x0400u16 != 0x0400u16,
        m & 0x0800u16 != 0x0800u16,
        m & 0x1000u16 != 0x1000u16,
        m & 0x2000u16 != 0x2000u16,
        m & 0x4000u16 != 0x4000u16,
    ensures
        m == 0,
{
}

proof fn lemma_outside_mask(p: u32, f: u32, m: u32)
    by (bit_vector)
    requires
        p & m == 0,
        f & m == f,
        f != 0,
    ensures
        p & f != f,
{
}

proof fn lemma_default_flags_within()
    by (bit_vector)
    ensures
        default_bound_flags() == 0x0009_fe6fu32,
        0x0000_0001u32 & 0x0009_fe6fu32 == 0x0000_0001u32,
        0x0000_0002u32 & 0x0009_fe6fu32 == 0x0000_0002u32,
        0x0000_0004u32 & 0x0009_fe6fu32 == 0x0000_0004u32,
        0x0000_0008u32 & 0x0009_fe6fu32 == 0x0000_0008u32,
        0x0008_0000u32 & 0x0009_fe6fu32 == 0x0008_0000u32,
        0x0000_0200u32 & 0x0009_fe6fu32 == 0x0000_0200u32,
        0x0000_0040u32 & 0x0009_fe6fu32 == 0x0000_0040u32,
        0x0000_4000u32 & 0x0009_fe6fu32 == 0x0000_4000u32,
        0x0001_0000u32 & 0x0009_fe6fu32 == 0x0001_0000u32,
        0x0000_8000u32 & 0x0009_fe6fu32 == 0x0000_8000u32,
        0x0000_0020u32 & 0x0009_fe6fu32 == 0x0000_0020u32,
        0x0000_2000u32 & 0x0009_fe6fu32 == 0x0000_2000u32,
        0x0000_0400u32 & 0x0009_fe6fu32 == 0x0000_0400u32,
        0x0000_1000u32 & 0x0009_fe6fu32 == 0x0000_1000u32,
        0x0000_0800u32 & 0x0009_fe6fu32 == 0x0000_0800u32,
{
}

/// The default profile leaves unbound the back paddles, the "dots" button,
/// the right touchpad's touch and click, both sticks' cap-touch sensors
/// (and the left pad flags, which are not bindable at all): pressing only
/// controls outside the default bound set produces no XInput button.
pub proof fn lemma_default_profile_unbound(pressed: u32)
    ensures
        forall|i: int|
            0 <= i < default_bindings_spec().len() ==> {
                let b = #[trigger] default_bindings_spec()[i].button;
                &&& b != LogicalButton::Dots
                &&& b != LogicalButton::LeftPaddleUpper
                &&& b != LogicalButton::LeftPaddleLower
                &&& b != LogicalButton::RightPaddleUpper
                &&& b != LogicalButton::RightPaddleLower
                &&& b != LogicalButton::RightPadTouch
                &&& b != LogicalButton::RightPadClick
                &&& b != LogicalButton::LeftStickCapTouch
                &&& b != LogicalButton::RightStickCapTouch
            },
        pressed & default_bound_flags() == 0 ==> mapped_bits(default_bindings_spec(), pressed) == 0,
{
    let d = default_bindings_spec();
    if pressed & default_bound_flags() == 0 {
        lemma_logical_masks_one_bit();
        lemma_default_flags_within();
        assert forall|i: int| 0 <= i < d.len() implies !binding_fires(#[trigger] d[i], pressed) by {
            lemma_outside_mask(pressed, logical_flag(d[i].button), default_bound_flags());
        }
        lemma_mapped_bits_members(d, pressed, XInputButton::A);
        lemma_mapped_bits_members(d, pressed, XInputButton::B);
        lemma_mapped_bits_members(d, pressed, XInputButton::X);
        lemma_mapped_bits_members(d, pressed, XInputButton::Y);
        lemma_mapped_bits_members(d, pressed, XInputButton::LeftBumper);
        lemma_mapped_bits_members(d, pressed, XInputButton::RightBumper);
        lemma_mapped_bits_members(d, pressed, XInputButton::Back);
        lemma_mapped_bits_members(d, pressed, XInputButton::Start);
        lemma_mapped_bits_members(d, pressed, XInputButton::Guide);
        lemma_mapped_bits_members(d, pressed, XInputButton::LeftThumb);
        lemma_mapped_bits_members(d, pressed, XInputButton::RightThumb);
        lemma_mapped_bits_members(d, pressed, XInputButton::DpadUp);
        lemma_mapped_bits_members(d, pressed, XInputButton::DpadDown);
        lemma_mapped_bits_members(d, pressed, XInputButton::DpadLeft);
        lemma_mapped_bits_members(d, pressed, XInputButton::DpadRight);
        lemma_no_single_bit_means_empty(mapped_bits(d, pressed));
    }
}

/// The physical control that the default profile binds to `t`.
spec fn default_source(t: XInputButton) -> LogicalButton {
    match t {
        XInputButton::A => LogicalButton::A,
        XInputButton::B => LogicalButton::B,
        XInputButton::X => LogicalButton::X,
        XInputButton::Y => LogicalButton::Y,
        XInputButton::LeftBumper => LogicalButton::LeftBumper,
        XInputButton::RightBumper => LogicalButton::RightBumper,
        XInputButton::Back => LogicalButton::BackSelectView,
        XInputButton::Start => LogicalButton::Start,
        XInputButton::Guide => LogicalButton::Guide,
        XInputButton::LeftThumb => LogicalButton::LeftStickClick,
        XInputButton::RightThumb => LogicalButton::RightStickClick,
        XInputButton::DpadUp => LogicalButton::DpadUp,
        XInputButton::DpadDown => LogicalButton::DpadDown,
        XInputButton::DpadLeft => LogicalButton::DpadLeft,
        XInputButton::DpadRight => LogicalButton::DpadRight,
    }
}

/// Where in the default profile the binding for `t` stands.
spec fn default_index(t: XInputButton) -> int {
    match t {
        XInputButton::A => 0,
        XInputButton::B => 1,
        XInputButton::X => 2,
        XInputButton::Y => 3,
        XInputButton::LeftBumper => 4,
        XInputButton::RightBumper => 5,
        XInputButton::Start => 6,
        XInputButton::Back => 7,
        XInputButton::Guide => 8,
        XInputButton::LeftThumb => 9,
        XInputButton::RightThumb => 10,
        XInputButton::DpadUp => 11,
        XInputButton::DpadDown => 12,
        XInputButton::DpadLeft => 13,
        XInputButton::DpadRight => 14,
    }
}

proof fn lemma_default_table()
    ensures
        default_bindings_spec().len() == 15,
        forall|i: int|
            0 <= i < 15 ==> (#[trigger] default_bindings_spec()[i]).button == default_source(
                default_bindings_spec()[i].target,
            ),
        forall|t: XInputButton|
            0 <= #[trigger] default_index(t) < 15 && default_bindings_spec()[default_index(t)].target
                == t,
{
    let d = default_bindings_spec();
    assert forall|i: int| 0 <= i < 15 implies (#[trigger] d[i]).button == default_source(
        d[i].target,
    ) by {
        if i == 0 {
        } else if i == 1 {
        } else if i == 2 {
        } else if i == 3 {
        } else if i == 4 {
        } else if i == 5 {
        } else if i == 6 {
        } else if i == 7 {
        } else if i == 8 {
        } else if i == 9 {
        } else if i == 10 {
        } else if i == 11 {
        } else if i == 12 {
        } else if i == 13 {
        } else {
        }
    }
}

proof fn lemma_default_maps_by_source(pressed: u32, t: XInputButton)
    ensures
        has_all16(mapped_bits(default_bindings_spec(), pressed), xinput_bit(t)) == has_all(
            pressed,
            logical_flag(default_source(t)),
        ),
{
    let d = default_bindings_spec();
    lemma_default_table();
    lemma_mapped_bits_members(d, pressed, t);
    let k = default_index(t);
    assert(d[k].target == t);
    if has_all(pressed, logical_flag(default_source(t))) {
        assert(d[k].button == default_source(t));
        assert(binding_fires(d[k], pressed));
    }
}

/// The default profile sends each bound control to the XInput button of its
/// own name, and to nothing else: for every set of pressed controls, each
/// XInput button is on exactly when its namesake is pressed (Back for the
/// back/select/view button, the thumb clicks for the stick clicks), and
/// no other bit is ever set.
pub proof fn lemma_default_profile_maps_namesakes(pressed: u32)
    ensures
        ({
            let out = mapped_bits(default_bindings_spec(), pressed);
            &&& has_all16(out, XInputButtons::A) == has_all(pressed, ButtonFlags::A)
            &&& has_all16(out, XInputButtons::B) == has_all(pressed, ButtonFlags::B)
            &&& has_all16(out, XInputButtons::X) == has_all(pressed, ButtonFlags::X)
            &&& has_all16(out, XInputButtons::Y) == has_all(pressed, ButtonFlags::Y)
            &&& has_all16(out, XInputButtons::LEFT_BUMPER) == has_all(
                pressed,
                ButtonFlags::LEFT_BUMPER,
            )
            &&& has_all16(out, XInputButtons::RIGHT_BUMPER) == has_all(
                pressed,
                ButtonFlags::RIGHT_BUMPER,
            )
            &&& has_all16(out, XInputButtons::BACK) == has_all(
                pressed,
                ButtonFlags::BACK_SELECT_VIEW,
            )
            &&& has_all16(out, XInputButtons::START) == has_all(pressed, ButtonFlags::START)
            &&& has_all16(out, XInputButtons::GUIDE) == has_all(pressed, ButtonFlags::GUIDE)
            &&& has_all16(out, XInputButtons::LEFT_THUMB) == has_all(
                pressed,
                ButtonFlags::LEFT_STICK_CLICK,
            )
            &&& has_all16(out, XInputButtons::RIGHT_THUMB) == has_all(
                pressed,
                ButtonFlags::RIGHT_STICK_CLICK,
            )
            &&& has_all16(out, XInputButtons::DPAD_UP) == has_all(pressed, ButtonFlags::DPAD_UP)
            &&& has_all16(out, XInputButtons::DPAD_DOWN) == has_all(
                pressed,
                ButtonFlags::DPAD_DOWN,
            )
            &&& has_all16(out, XInputButtons::DPAD_LEFT) == has_all(
                pressed,
                ButtonFlags::DPAD_LEFT,
            )
            &&& has_all16(out, XInputButtons::DPAD_RIGHT) == has_all(
                pressed,
                ButtonFlags::DPAD_RIGHT,
            )
            &&& out & !XInputButtons::ALL_BITS == 0
        }),
{
    lemma_default_maps_by_source(pressed, XInputButton::A);
    lemma_default_maps_by_source(pressed, XInputButton::B);
    lemma_default_maps_by_source(pressed, XInputButton::X);
    lemma_default_maps_by_source(pressed, XInputButton::Y);
    lemma_default_maps_by_source(pressed, XInputButton::LeftBumper);
    lemma_default_maps_by_source(pressed, XInputButton::RightBumper);
    lemma_default_maps_by_source(pressed, XInputButton::Back);
    lemma_default_maps_by_source(pressed, XInputButton::Start);
    lemma_default_maps_by_source(pressed, XInputButton::Guide);
    lemma_default_maps_by_source(pressed, XInputButton::LeftThumb);
    lemma_default_maps_by_source(pressed, XInputButton::RightThumb);
    lemma_default_maps_by_source(pressed, XInputButton::DpadUp);
    lemma_default_maps_by_source(pressed, XInputButton::DpadDown);
    lemma_default_maps_by_source(pressed, XInputButton::DpadLeft);
    lemma_default_maps_by_source(pressed, XInputButton::DpadRight);
    lemma_mapped_bits_members(default_bindings_spec(), pressed, XInputButton::A);
}

/// Appending a binding adds exactly its target when its control is
/// pressed: a newly bound control (a paddle, say) is forwarded.
pub proof fn lemma_added_binding(bindings: Seq<ButtonBinding>, extra: ButtonBinding, pressed: u32)
    ensures
        mapped_bits(bindings.push(extra), pressed) == mapped_bits(bindings, pressed) | (if binding_fires(
            extra,
            pressed,
        ) {
            xinput_bit(extra.target)
        } else {
            0
        }),
        binding_fires(extra, pressed) ==> has_all16(
            mapped_bits(bindings.push(extra), pressed),
            xinput_bit(extra.target),
        ),
{
    assert(bindings.push(extra).drop_last() =~= bindings);
    lemma_mapped_bits_members(bindings.push(extra), pressed, extra.target);
    let n = bindings.len() as int;
    if binding_fires(extra, pressed) {
        assert(bindings.push(extra)[n].target == extra.target);
    }
}

proof fn lemma_subset_steps(p1: u32, p2: u32, f: u32, x1: u16, x2: u16, y1: u16, y2: u16)
    by (bit_vector)
    ensures
        (p1 & !p2 == 0 && p1 & f == f) ==> p2 & f == f,
        (x1 & !x2 == 0 && y1 & !y2 == 0) ==> (x1 | y1) & !(x2 | y2) == 0,
        0u16 & !x2 == 0,
        y1 & !y1 == 0,
{
}

/// Pressing more physical controls never turns an XInput button off: if
/// `pressed` is a subset of `more`, the mapped set of `pressed` is a subset
/// of the mapped set of `more`.
pub proof fn lemma_mapping_monotonic(bindings: Seq<ButtonBinding>, pressed: u32, more: u32)
    requires
        pressed & !more == 0,
    ensures
        mapped_bits(bindings, pressed) & !mapped_bits(bindings, more) == 0,
    decreases bindings.len(),
{
    if bindings.len() == 0 {
        lemma_subset_steps(pressed, more, 0, 0, 0, 0, 0);
    } else {
        let init = bindings.drop_last();
        let last = bindings.last();
        lemma_mapping_monotonic(init, pressed, more);
        let y1: u16 = if binding_fires(last, pressed) {
            xinput_bit(last.target)
        } else {
            0
        };
        let y2: u16 = if binding_fires(last, more) {
            xinput_bit(last.target)
        } else {
            0
        };
        lemma_subset_steps(
            pressed,
            more,
            logical_flag(last.button),
            mapped_bits(init, pressed),
            mapped_bits(init, more),
            y1,
            y2,
        );
        lemma_subset_steps(pressed, more, 0, 0, y2, y1, y1);
    }
}

proof fn lemma_flags_avoid_left_pad()
    by (bit_vector)
    ensures
        0x0000_0001u32 & 0x0280_0000u32 == 0,
        0x0000_0002u32 & 0x0280_0000u32 == 0,
        0x0000_0004u32 & 0x0280_0000u32 == 0,
        0x0000_0008u32 & 0x0280_0000u32 == 0,
        0x0000_0010u32 & 0x0280_0000u32 == 0,
        0x0000_0020u32 & 0x0280_0000u32 == 0,
        0x0000_0040u32 & 0x0280_0000u32 == 0,
        0x0000_0080u32 & 0x0280_0000u32 == 0,
        0x0000_0100u32 & 0x0280_0000u32 == 0,
        0x0000_0200u32 & 0x0280_0000u32 == 0,
        0x0000_0400u32 & 0x0280_0000u32 == 0,
        0x0000_0800u32 & 0x0280_0000u32 == 0,
        0x0000_1000u32 & 0x0280_0000u32 == 0,
        0x0000_2000u32 & 0x0280_0000u32 == 0,
        0x0000_4000u32 & 0x0280_0000u32 == 0,
        0x0000_8000u32 & 0x0280_0000u32 == 0,
        0x0001_0000u32 & 0x0280_0000u32 == 0,
        0x0002_0000u32 & 0x0280_0000u32 == 0,
        0x0004_0000u32 & 0x0280_0000u32 == 0,
        0x0008_0000u32 & 0x0280_0000u32 == 0,
        0x0010_0000u32 & 0x0280_0000u32 == 0,
        0x0020_0000u32 & 0x0280_0000u32 == 0,
        0x0040_0000u32 & 0x0280_0000u32 == 0,
        0x0100_0000u32 & 0x0280_0000u32 == 0,
        ButtonFlags::LEFT_PAD_CLICK | ButtonFlags::LEFT_PAD_TOUCH == 0x0280_0000u32,
{
}

proof fn lemma_mask_outside_flag(p: u32, f: u32, e: u32)
    by (bit_vector)
    requires
        f & e == 0,
    ensures
        ((p & !e) & f == f) == (p & f == f),
{
}

/// The left touchpad's click and touch flags never reach the XInput output,
/// whatever the bindings: no physical control that can be bound carries
/// them, so the mapped set is the same with or without them pressed.
pub proof fn lemma_left_pad_flags_never_mapped(bindings: Seq<ButtonBinding>, pressed: u32)
    ensures
        mapped_bits(
            bindings,
            pressed & !(ButtonFlags::LEFT_PAD_CLICK | ButtonFlags::LEFT_PAD_TOUCH),
        ) == mapped_bits(bindings, pressed),
    decreases bindings.len(),
{
    lemma_flags_avoid_left_pad();
    if bindings.len() > 0 {
        let last = bindings.last();
        lemma_left_pad_flags_never_mapped(bindings.drop_last(), pressed);
        assert(logical_from_flag(logical_flag(last.button)) == Some(last.button));
        lemma_mask_outside_flag(pressed, logical_flag(last.button), 0x0280_0000u32);
    }
}

/// The target of the last binding of `button` in `bindings`, if any: with
/// repeated bindings of one control the last one wins.
pub open spec fn bound_target_spec(bindings: Seq<ButtonBinding>, button: LogicalButton) -> Option<
    XInputButton,
>
    decreases bindings.len(),
{
    if bindings.len() == 0 {
        None
    } else if bindings.last().button == button {
        Some(bindings.last().target)
    } else {
        bound_target_spec(bindings.drop_last(), button)
    }
}

/// The XInput button `button` is bound to in `bindings` (the last binding
/// of it wins), or `None` when it is unmapped.
pub fn bound_target(bindings: &Vec<ButtonBinding>, button: LogicalButton) -> (r: Option<
    XInputButton,
>)
    ensures
        r == bound_target_spec(bindings@, button),
{
    let mut found: Option<XInputButton> = None;
    let mut i: usize = 0;
    while i < bindings.len()
        invariant
            i <= bindings@.len(),
            found == bound_target_spec(bindings@.subrange(0, i as int), button),
        decreases bindings@.len() - i,
    {
        assert(bindings@.subrange(0, i + 1).drop_last() =~= bindings@.subrange(0, i as int));
        if bindings[i].button == button {
            found = Some(bindings[i].target);
        }
        i = i + 1;
    }
    assert(bindings@.subrange(0, i as int) =~= bindings@);
    found
}

/// A bound control's target fires when that control alone is pressed: if
/// `bound_target` gives `Some(t)`, pressing `button` turns `t` on.
pub proof fn lemma_bound_target_fires(bindings: Seq<ButtonBinding>, button: LogicalButton)
    ensures
        bound_target_spec(bindings, button) matches Some(t) ==> has_all16(
            mapped_bits(bindings, logical_flag(button)),
            xinput_bit(t),
        ),
    decreases bindings.len(),
{
    if bindings.len() > 0 {
        let init = bindings.drop_last();
        lemma_bound_target_fires(init, button);
        lemma_logical_flag_is_one_bit(button, button);
        if let Some(t) = bound_target_spec(bindings, button) {
            lemma_mapped_bits_members(bindings, logical_flag(button), t);
            if bindings.last().button == button {
                assert(bindings[bindings.len() - 1].target == t);
            } else {
                lemma_mapped_bits_members(init, logical_flag(button), t);
                let i = choose|i: int|
                    0 <= i < init.len() && #[trigger] init[i].target == t && binding_fires(
                        init[i],
                        logical_flag(button),
                    );
                assert(bindings[i] == init[i]);
            }
        }
    }
}

/// XInput's stick Y convention from the controller's raw Y: the raw axis
/// reads positive when pushed up, XInput reads negative when pushed up, so
/// the value is negated (saturating, so `i16::MIN` becomes `i16::MAX`).
pub open spec fn xinput_y_spec(raw_y: i16) -> i16 {
    if raw_y == i16::MIN {
        i16::MAX
    } else {
        (-raw_y) as i16
    }
}

/// Flipping a stick's Y reading negates it exactly (a half push down
/// becomes the same half push up), except that the one value with no
/// negation in `i16`, `i16::MIN`, saturates to `i16::MAX`: the flip keeps
/// the distance from centre, and flipping twice gives the reading back
/// for every value but `i16::MIN`.
pub proof fn lemma_stick_y_negates(raw_y: i16)
    ensures
        raw_y != i16::MIN ==> xinput_y_spec(raw_y) as int == -(raw_y as int),
        raw_y == i16::MIN ==> xinput_y_spec(raw_y) == i16::MAX,
        raw_y != i16::MIN ==> xinput_y_spec(xinput_y_spec(raw_y)) == raw_y,
{
}

/// Flips a raw stick Y reading into XInput's up-negative convention (see
/// [`xinput_y_spec`]).
pub fn xinput_stick_y(raw_y: i16) -> (r: i16)
    ensures
        r == xinput_y_spec(raw_y),
        raw_y > 0 ==> r < 0,
        raw_y < 0 ==> r > 0,
        raw_y == 0 ==> r == 0,
        raw_y != i16::MIN ==> r as int == -(raw_y as int),
        raw_y == i16::MIN ==> r == i16::MAX,
{
    if raw_y == i16::MIN {
        i16::MAX
    } else {
        -raw_y
    }
}

/// [`LogicalButton::ALL`] lists every physical control exactly once, and
/// [`XInputButton::ALL`] every XInput button exactly once.
pub proof fn lemma_all_lists_every_button_once()
    ensures
        LogicalButton::ALL@.len() == 24,
        forall|b: LogicalButton| LogicalButton::ALL@.contains(b),
        forall|i: int, j: int|
            0 <= i < j < 24 ==> LogicalButton::ALL@[i] != LogicalButton::ALL@[j],
        XInputButton::ALL@.len() == 15,
        forall|t: XInputButton| XInputButton::ALL@.contains(t),
        forall|i: int, j: int|
            0 <= i < j < 15 ==> XInputButton::ALL@[i] != XInputButton::ALL@[j],
{
    let all = LogicalButton::ALL@;
    assert forall|b: LogicalButton| all.contains(b) by {
        match b {
            LogicalButton::A => assert(all[0] == b),
            LogicalButton::B => assert(all[1] == b),
            LogicalButton::X => assert(all[2] == b),
            LogicalButton::Y => assert(all[3] == b),
            LogicalButton::Dots => assert(all[4] == b),
            LogicalButton::Start => assert(all[5] == b),
            LogicalButton::BackSelectView => assert(all[6] == b),
            LogicalButton::Guide => assert(all[7] == b),
            LogicalButton::LeftBumper => assert(all[8] == b),
            LogicalButton::RightBumper => assert(all[9] == b),
            LogicalButton::RightStickCapTouch => assert(all[10] == b),
            LogicalButton::LeftStickCapTouch => assert(all[11] == b),
            LogicalButton::LeftStickClick => assert(all[12] == b),
            LogicalButton::RightStickClick => assert(all[13] == b),
            LogicalButton::RightPadTouch => assert(all[14] == b),
            LogicalButton::RightPadClick => assert(all[15] == b),
            LogicalButton::DpadUp => assert(all[16] == b),
            LogicalButton::DpadDown => assert(all[17] == b),
            LogicalButton::DpadLeft => assert(all[18] == b),
            LogicalButton::DpadRight => assert(all[19] == b),
            LogicalButton::LeftPaddleUpper => assert(all[20] == b),
            LogicalButton::LeftPaddleLower => assert(all[21] == b),
            LogicalButton::RightPaddleUpper => assert(all[22] == b),
            LogicalButton::RightPaddleLower => assert(all[23] == b),
        }
    }
    let xall = XInputButton::ALL@;
    assert forall|t: XInputButton| xall.contains(t) by {
        match t {
            XInputButton::A => assert(xall[0] == t),
            XInputButton::B => assert(xall[1] == t),
            XInputButton::X => assert(xall[2] == t),
            XInputButton::Y => assert(xall[3] == t),
            XInputButton::LeftBumper => assert(xall[4] == t),
            XInputButton::RightBumper => assert(xall[5] == t),
            XInputButton::Back => assert(xall[6] == t),
            XInputButton::Start => assert(xall[7] == t),
            XInputButton::Guide => assert(xall[8] == t),
            XInputButton::LeftThumb => assert(xall[9] == t),
            XInputButton::RightThumb => assert(xall[10] == t),
            XInputButton::DpadUp => assert(xall[11] == t),
            XInputButton::DpadDown => assert(xall[12] == t),
            XInputButton::DpadLeft => assert(xall[13] == t),
            XInputButton::DpadRight => assert(xall[14] == t),
        }
    }
}

} // verus!
