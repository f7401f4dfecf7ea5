use steam_controller_x::buttons::{ButtonFlags, XInputButtons};
use steam_controller_x::config::{
    bound_target, default_bindings, map_buttons, xinput_stick_y, ButtonBinding, LogicalButton,
    XInputButton,
};
use steam_controller_x::xinput::dpad_hat;

fn pressed(bits: u32) -> ButtonFlags {
    ButtonFlags::from_bits_truncate(bits)
}

#[test]
fn default_profile_maps_a_to_a() {
    let bindings = default_bindings();
    let mapped = map_buttons(&bindings, pressed(ButtonFlags::A));
    assert!(mapped.contains(XInputButtons::A));
    assert!(!mapped.contains(XInputButtons::B));
}

#[test]
fn paddles_unmapped_by_default() {
    let bindings = default_bindings();
    let mapped = map_buttons(&bindings, pressed(ButtonFlags::LEFT_PADDLE_UPPER));
    assert!(mapped.is_empty());
}

#[test]
fn remapping_a_paddle_forwards_it() {
    let mut bindings = default_bindings();
    bindings.push(ButtonBinding {
        button: LogicalButton::LeftPaddleUpper,
        target: XInputButton::A,
    });
    let mapped = map_buttons(&bindings, pressed(ButtonFlags::LEFT_PADDLE_UPPER));
    assert!(mapped.contains(XInputButtons::A));
}

#[test]
fn stick_y_flipped_to_xinput_up_negative_convention() {
    assert!(xinput_stick_y(16000) < 0, "left stick up should map to negative Y");
    assert!(xinput_stick_y(-16000) > 0, "right stick down should map to positive Y");
}

#[test]
fn stick_y_flip_saturates() {
    assert_eq!(xinput_stick_y(i16::MIN), i16::MAX);
    assert_eq!(xinput_stick_y(i16::MAX), -i16::MAX);
    assert_eq!(xinput_stick_y(0), 0);
    assert_eq!(xinput_stick_y(16000), -16000);
}

#[test]
fn every_unbound_control_is_silent_by_default() {
    let bindings = default_bindings();
    let unbound = ButtonFlags::DOTS
        | ButtonFlags::LEFT_PADDLE_UPPER
        | ButtonFlags::LEFT_PADDLE_LOWER
        | ButtonFlags::RIGHT_PADDLE_UPPER
        | ButtonFlags::RIGHT_PADDLE_LOWER
        | ButtonFlags::RIGHT_PAD_TOUCH
        | ButtonFlags::RIGHT_PAD_CLICK
        | ButtonFlags::LEFT_STICK_CAP_TOUCH
        | ButtonFlags::RIGHT_STICK_CAP_TOUCH
        | ButtonFlags::LEFT_PAD_TOUCH
        | ButtonFlags::LEFT_PAD_CLICK;
    assert!(map_buttons(&bindings, pressed(unbound)).is_empty());
}

#[test]
fn default_profile_binds_real_right_stick_click_to_right_thumb() {
    let bindings = default_bindings();
    let mapped = map_buttons(&bindings, pressed(ButtonFlags::RIGHT_STICK_CLICK));
    assert_eq!(mapped.bits(), XInputButtons::RIGHT_THUMB);
    let mapped = map_buttons(&bindings, pressed(ButtonFlags::RIGHT_PAD_CLICK));
    assert!(mapped.is_empty());
}

#[test]
fn default_profile_maps_everything_bound() {
    let bindings = default_bindings();
    let all = map_buttons(&bindings, pressed(ButtonFlags::ALL_BITS));
    assert_eq!(all.bits(), XInputButtons::ALL_BITS);
    assert_eq!(bindings.len(), 15);
}

#[test]
fn mapping_is_monotonic_example() {
    let bindings = default_bindings();
    let few = map_buttons(&bindings, pressed(ButtonFlags::A | ButtonFlags::DPAD_UP));
    let more = map_buttons(
        &bindings,
        pressed(ButtonFlags::A | ButtonFlags::DPAD_UP | ButtonFlags::GUIDE),
    );
    assert_eq!(few.bits() & !more.bits(), 0);
    assert_eq!(more.bits(), XInputButtons::A | XInputButtons::DPAD_UP | XInputButtons::GUIDE);
}

#[test]
fn two_controls_can_share_a_target() {
    let bindings = vec![
        ButtonBinding { button: LogicalButton::A, target: XInputButton::X },
        ButtonBinding { button: LogicalButton::B, target: XInputButton::X },
    ];
    assert_eq!(map_buttons(&bindings, pressed(ButtonFlags::B)).bits(), XInputButtons::X);
    assert!(map_buttons(&bindings, pressed(ButtonFlags::Y)).is_empty());
}

#[test]
fn flags_and_bits_are_distinct_single_bits() {
    let mut seen = 0u32;
    for b in LogicalButton::ALL {
        let f = b.flag();
        assert_eq!(f.count_ones(), 1);
        assert_eq!(seen & f, 0);
        seen |= f;
    }
    assert_eq!(LogicalButton::ALL.len(), 24);
    let mut seen = 0u16;
    for t in XInputButton::ALL {
        let m = t.bit();
        assert_eq!(m.count_ones(), 1);
        assert_eq!(seen & m, 0);
        seen |= m;
    }
    assert_eq!(seen, XInputButtons::ALL_BITS);
}

#[test]
fn flag_names_match_button_flags() {
    assert_eq!(LogicalButton::A.flag(), ButtonFlags::A);
    assert_eq!(LogicalButton::RightStickClick.flag(), ButtonFlags::RIGHT_STICK_CLICK);
    assert_eq!(LogicalButton::LeftStickCapTouch.flag(), ButtonFlags::LEFT_STICK_CAP_TOUCH);
    assert_eq!(XInputButton::Back.bit(), XInputButtons::BACK);
    assert_eq!(XInputButton::DpadRight.bit(), XInputButtons::DPAD_RIGHT);
}

#[test]
fn last_binding_wins_in_lookup() {
    let mut bindings = default_bindings();
    assert_eq!(bound_target(&bindings, LogicalButton::A), Some(XInputButton::A));
    assert_eq!(bound_target(&bindings, LogicalButton::Dots), None);
    bindings.push(ButtonBinding { button: LogicalButton::A, target: XInputButton::Y });
    assert_eq!(bound_target(&bindings, LogicalButton::A), Some(XInputButton::Y));
}

#[test]
fn dpad_hat_axes() {
    let b = |bits: u16| XInputButtons::from_bits_truncate(bits);
    assert_eq!(dpad_hat(b(0)), (0, 0));
    assert_eq!(dpad_hat(b(XInputButtons::DPAD_LEFT)), (-1, 0));
    assert_eq!(dpad_hat(b(XInputButtons::DPAD_RIGHT | XInputButtons::DPAD_UP)), (1, -1));
    assert_eq!(dpad_hat(b(XInputButtons::DPAD_DOWN)), (0, 1));
    assert_eq!(
        dpad_hat(b(XInputButtons::DPAD_LEFT | XInputButtons::DPAD_RIGHT | XInputButtons::DPAD_DOWN)),
        (0, 1)
    );
}

#[test]
fn button_set_operations() {
    let mut f = ButtonFlags::empty();
    assert!(f.is_empty());
    f.insert(ButtonFlags::X | 0x8000_0000);
    assert_eq!(f.bits(), ButtonFlags::X);
    assert_eq!(ButtonFlags::from_bits_truncate(u32::MAX).bits(), ButtonFlags::ALL_BITS);
    let mut x = XInputButtons::empty();
    x.insert(XInputButtons::GUIDE | 0x8000);
    assert_eq!(x.bits(), XInputButtons::GUIDE);
}

#[test]
fn left_pad_flags_never_reach_the_output() {
    let every_control_to_a: Vec<ButtonBinding> = LogicalButton::ALL
        .iter()
        .map(|&button| ButtonBinding { button, target: XInputButton::A })
        .collect();
    let left_pad = ButtonFlags::LEFT_PAD_CLICK | ButtonFlags::LEFT_PAD_TOUCH;
    assert!(map_buttons(&every_control_to_a, pressed(left_pad)).is_empty());
    assert!(map_buttons(&default_bindings(), pressed(left_pad)).is_empty());
    let with_a = map_buttons(&default_bindings(), pressed(left_pad | ButtonFlags::A));
    assert_eq!(with_a.bits(), XInputButtons::A);
}
