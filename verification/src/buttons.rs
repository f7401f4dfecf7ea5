//! Digital button sets of the physical controller and of the virtual
//! XInput pad.
//!
//! Each set is a bit mask; the named masks are associated constants of the
//! set type (`ButtonFlags::A`, `XInputButtons::DPAD_UP`, ...), so a test such
//! as `state.buttons.contains(ButtonFlags::A)` reads the same as with a
//! bit-flag macro.

use vstd::prelude::*;

verus! {

/// `true` when every bit of `mask` is set in `set`.
pub open spec fn has_all(set: u32, mask: u32) -> bool {
    set & mask == mask
}

/// `true` when every bit of `mask` is set in `set`.
pub open spec fn has_all16(set: u16, mask: u16) -> bool {
    set & mask == mask
}

/// Digital button state of the controller, one bit per control.
///
/// Bits 0-7 are report byte 2, bits 8-15 report byte 3, bits 16-22 the low
/// seven bits of report byte 4 (its top bit is reserved and never kept).
/// Bits 23-25 are synthesized from the status byte (and the left pad
/// position) by `report::decode`.
#[derive(Debug, Clone, Copy, PartialEq, Eq, Hash)]
pub struct ButtonFlags {
    pub bits: u32,
}

impl View for ButtonFlags {
    type V = u32;

    open spec fn view(&self) -> u32 {
        self.bits
    }
}

impl ButtonFlags {
    // Report byte 2
    pub const A: u32 = 0x0000_0001;
    pub const B: u32 = 0x0000_0002;
    pub const X: u32 = 0x0000_0004;
    pub const Y: u32 = 0x0000_0008;
    /// The "..." quick-access button.
    pub const DOTS: u32 = 0x0000_0010;
    /// The real right *stick* click (straight-down press on the stick),
    /// distinct from [`Self::RIGHT_PAD_CLICK`], the right touchpad's
    /// press-force click.
    pub const RIGHT_STICK_CLICK: u32 = 0x0000_0020;
    pub const START: u32 = 0x0000_0040;
    pub const RIGHT_PADDLE_UPPER: u32 = 0x0000_0080;
    // Report byte 3
    pub const RIGHT_PADDLE_LOWER: u32 = 0x0000_0100;
    pub const RIGHT_BUMPER: u32 = 0x0000_0200;
    pub const DPAD_DOWN: u32 = 0x0000_0400;
    pub const DPAD_RIGHT: u32 = 0x0000_0800;
    pub const DPAD_LEFT: u32 = 0x0000_1000;
    pub const DPAD_UP: u32 = 0x0000_2000;
    pub const BACK_SELECT_VIEW: u32 = 0x0000_4000;
    pub const LEFT_STICK_CLICK: u32 = 0x0000_8000;
    // Report byte 4
    pub const GUIDE: u32 = 0x0001_0000;
    pub const LEFT_PADDLE_UPPER: u32 = 0x0002_0000;
    pub const LEFT_PADDLE_LOWER: u32 = 0x0004_0000;
    pub const LEFT_BUMPER: u32 = 0x0008_0000;
    /// Not a button: the capacitive touch sensor on top of the right stick.
    pub const RIGHT_STICK_CAP_TOUCH: u32 = 0x0010_0000;
    /// Fires alongside [`Self::RIGHT_PAD_CLICK`] whenever the right pad is
    /// touched.
    pub const RIGHT_PAD_TOUCH: u32 = 0x0020_0000;
    pub const RIGHT_PAD_CLICK: u32 = 0x0040_0000;
    /// Left touchpad press-force click, from status byte bit `0x04`.
    pub const LEFT_PAD_CLICK: u32 = 0x0080_0000;
    /// Not a button: the left stick's capacitive touch sensor, from status
    /// byte bit `0x01`.
    pub const LEFT_STICK_CAP_TOUCH: u32 = 0x0100_0000;
    /// Left touchpad touch, from status byte bit `0x02` or a non-zero left
    /// pad position.
    pub const LEFT_PAD_TOUCH: u32 = 0x0200_0000;
    /// Every defined flag.
    pub const ALL_BITS: u32 = 0x03ff_ffff;

    /// The empty set.
    pub fn empty() -> (r: ButtonFlags)
        ensures
            r@ == 0,
    {
        ButtonFlags { bits: 0 }
    }

    /// The set of the defined flags among `bits`; undefined bits are dropped.
    pub fn from_bits_truncate(bits: u32) -> (r: ButtonFlags)
        ensures
            r@ == bits & Self::ALL_BITS,
    {
        ButtonFlags { bits: bits & Self::ALL_BITS }
    }

    /// The raw bit mask.
    pub fn bits(&self) -> (r: u32)
        ensures
            r == self@,
    {
        self.bits
    }

    /// `true` when every flag of `mask` is set.
    pub fn contains(&self, mask: u32) -> (r: bool)
        ensures
            r == has_all(self@, mask),
    {
        self.bits & mask == mask
    }

    /// `true` when no flag is set.
    pub fn is_empty(&self) -> (r: bool)
        ensures
            r == (self@ == 0),
    {
        self.bits == 0
    }

    /// Sets the flags of `mask` (only the defined ones).
    pub fn insert(&mut self, mask: u32)
        ensures
            final(self)@ == old(self)@ | (mask & Self::ALL_BITS),
    {
        self.bits = self.bits | (mask & Self::ALL_BITS);
    }
}

/// The classic Xbox 360 gamepad's digital buttons.
#[derive(Debug, Clone, Copy, PartialEq, Eq, Hash, Default)]
pub struct XInputButtons {
    pub bits: u16,
}

impl View for XInputButtons {
    type V = u16;

    open spec fn view(&self) -> u16 {
        self.bits
    }
}

impl XInputButtons {
    pub const A: u16 = 0x0001;
    pub const B: u16 = 0x0002;
    pub const X: u16 = 0x0004;
    pub const Y: u16 = 0x0008;
    pub const LEFT_BUMPER: u16 = 0x0010;
    pub const RIGHT_BUMPER: u16 = 0x0020;
    pub const BACK: u16 = 0x0040;
    pub const START: u16 = 0x0080;
    pub const GUIDE: u16 = 0x0100;
    pub const LEFT_THUMB: u16 = 0x0200;
    pub const RIGHT_THUMB: u16 = 0x0400;
    pub const DPAD_UP: u16 = 0x0800;
    pub const DPAD_DOWN: u16 = 0x1000;
    pub const DPAD_LEFT: u16 = 0x2000;
    pub const DPAD_RIGHT: u16 = 0x4000;
    /// Every defined button.
    pub const ALL_BITS: u16 = 0x7fff;

    /// The empty set.
    pub fn empty() -> (r: XInputButtons)
        ensures
            r@ == 0,
    {
        XInputButtons { bits: 0 }
    }

    /// The set of the defined buttons among `bits`; undefined bits are dropped.
    pub fn from_bits_truncate(bits: u16) -> (r: XInputButtons)
        ensures
            r@ == bits & Self::ALL_BITS,
    {
        XInputButtons { bits: bits & Self::ALL_BITS }
    }

    /// The raw bit mask.
    pub fn bits(&self) -> (r: u16)
        ensures
            r == self@,
    {
        self.bits
    }

    /// `true` when every button of `mask` is set.
    pub fn contains(&self, mask: u16) -> (r: bool)
        ensures
            r == has_all16(self@, mask),
    {
        self.bits & mask == mask
    }

    /// `true` when no button is set.
    pub fn is_empty(&self) -> (r: bool)
        ensures
            r == (self@ == 0),
    {
        self.bits == 0
    }

    /// Sets the buttons of `mask` (only the defined ones).
    pub fn insert(&mut self, mask: u16)
        ensures
            final(self)@ == old(self)@ | (mask & Self::ALL_BITS),
    {
        self.bits = self.bits | (mask & Self::ALL_BITS);
    }
}

} // verus!
