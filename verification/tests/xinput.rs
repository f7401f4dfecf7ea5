use steam_controller_x::buttons::XInputButtons;
use steam_controller_x::xinput::{pad_frame, PadAxis, PadKey, XInputState};

#[test]
fn pad_frame_presses_exactly_the_set_buttons() {
    let state = XInputState {
        buttons: XInputButtons::from_bits_truncate(
            XInputButtons::A | XInputButtons::LEFT_BUMPER | XInputButtons::GUIDE,
        ),
        ..XInputState::default()
    };
    let frame = pad_frame(&state);
    assert_eq!(
        frame.keys,
        vec![
            (PadKey::A, true),
            (PadKey::B, false),
            (PadKey::X, false),
            (PadKey::Y, false),
            (PadKey::TL, true),
            (PadKey::TR, false),
            (PadKey::Select, false),
            (PadKey::Start, false),
            (PadKey::Mode, true),
            (PadKey::ThumbL, false),
            (PadKey::ThumbR, false),
        ]
    );
}

#[test]
fn pad_frame_carries_axes_and_dpad_hat() {
    let state = XInputState {
        buttons: XInputButtons::from_bits_truncate(
            XInputButtons::DPAD_UP | XInputButtons::DPAD_LEFT | XInputButtons::DPAD_RIGHT,
        ),
        left_trigger: 200,
        right_trigger: 7,
        thumb_lx: -32768,
        thumb_ly: 1234,
        thumb_rx: 32767,
        thumb_ry: -5,
    };
    let frame = pad_frame(&state);
    assert_eq!(
        frame.axes,
        vec![
            (PadAxis::X, -32768),
            (PadAxis::Y, 1234),
            (PadAxis::RX, 32767),
            (PadAxis::RY, -5),
            (PadAxis::Z, 200),
            (PadAxis::RZ, 7),
            (PadAxis::HatX0, 0),
            (PadAxis::HatY0, -1),
        ]
    );
}

#[test]
fn pad_frame_of_idle_pad_releases_everything() {
    let frame = pad_frame(&XInputState::default());
    assert!(frame.keys.iter().all(|(_, pressed)| !pressed));
    assert!(frame.axes.iter().all(|(_, v)| *v == 0));
    assert_eq!(frame.keys.len(), 11);
    assert_eq!(frame.axes.len(), 8);
}
