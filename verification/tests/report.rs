use steam_controller_x::buttons::ButtonFlags;
use steam_controller_x::protocol::{DecodeError, StickAxis};
use steam_controller_x::report::{
    decode, decode_telemetry, ACCEL, BUTTONS_0, BUTTONS_1, BUTTONS_2, GYRO, INPUT_REPORT_ID,
    LEFT_PAD_X, LEFT_PAD_Y, LEFT_STICK_X, LEFT_STICK_Y, LEFT_TRIGGER, MIN_REPORT_LEN,
    RIGHT_PAD_X, RIGHT_PAD_Y, RIGHT_STICK_X, RIGHT_STICK_Y, RIGHT_TRIGGER, SEQUENCE, STATUS,
    TELEMETRY_MIN_LEN, TELEMETRY_REPORT_ID, UNKNOWN_COUNTER_32,
};

fn synthetic_report() -> Vec<u8> {
    let mut r = vec![0u8; MIN_REPORT_LEN];
    r[0] = INPUT_REPORT_ID;
    r[SEQUENCE] = 42;
    r[BUTTONS_0] = ButtonFlags::A as u8;
    r[BUTTONS_1] = ((ButtonFlags::LEFT_STICK_CLICK | ButtonFlags::RIGHT_BUMPER) >> 8) as u8;
    r[BUTTONS_2] = ((ButtonFlags::LEFT_BUMPER | ButtonFlags::RIGHT_STICK_CAP_TOUCH) >> 16) as u8;
    r[LEFT_TRIGGER..LEFT_TRIGGER + 2].copy_from_slice(&30000u16.to_le_bytes());
    r[RIGHT_TRIGGER..RIGHT_TRIGGER + 2].copy_from_slice(&15000u16.to_le_bytes());
    r[LEFT_STICK_X..LEFT_STICK_X + 2].copy_from_slice(&(-1000i16).to_le_bytes());
    r[LEFT_STICK_Y..LEFT_STICK_Y + 2].copy_from_slice(&(2000i16).to_le_bytes());
    r[RIGHT_STICK_X..RIGHT_STICK_X + 2].copy_from_slice(&(-1500i16).to_le_bytes());
    r[RIGHT_STICK_Y..RIGHT_STICK_Y + 2].copy_from_slice(&(2500i16).to_le_bytes());
    r[LEFT_PAD_X..LEFT_PAD_X + 2].copy_from_slice(&(300i16).to_le_bytes());
    r[LEFT_PAD_Y..LEFT_PAD_Y + 2].copy_from_slice(&(-300i16).to_le_bytes());
    r[RIGHT_PAD_X..RIGHT_PAD_X + 2].copy_from_slice(&(500i16).to_le_bytes());
    r[RIGHT_PAD_Y..RIGHT_PAD_Y + 2].copy_from_slice(&(-500i16).to_le_bytes());
    r[UNKNOWN_COUNTER_32] = 130;
    for (i, v) in [10i16, 20, 30].iter().enumerate() {
        r[ACCEL + i * 2..ACCEL + i * 2 + 2].copy_from_slice(&v.to_le_bytes());
    }
    for (i, v) in [40i16, 50, 60].iter().enumerate() {
        r[GYRO + i * 2..GYRO + i * 2 + 2].copy_from_slice(&v.to_le_bytes());
    }
    r
}

#[test]
fn decodes_sequence_buttons_and_triggers() {
    let state = decode(&synthetic_report()).unwrap();
    assert_eq!(state.sequence, 42);
    assert!(state.buttons.contains(ButtonFlags::A));
    assert!(state.buttons.contains(ButtonFlags::LEFT_STICK_CLICK));
    assert!(state.buttons.contains(ButtonFlags::LEFT_BUMPER));
    assert!(state.buttons.contains(ButtonFlags::RIGHT_BUMPER));
    assert!(state.buttons.contains(ButtonFlags::RIGHT_STICK_CAP_TOUCH));
    assert!(!state.buttons.contains(ButtonFlags::RIGHT_STICK_CLICK));
    assert!(!state.buttons.contains(ButtonFlags::B));
    assert_eq!(state.left_trigger, 30000);
    assert_eq!(state.right_trigger, 15000);
}

#[test]
fn decodes_sticks_and_pads() {
    let state = decode(&synthetic_report()).unwrap();
    assert_eq!(state.left_stick, StickAxis { x: -1000, y: 2000 });
    assert_eq!(state.right_stick, StickAxis { x: -1500, y: 2500 });
    assert_eq!(state.left_pad, StickAxis { x: 300, y: -300 });
    assert_eq!(state.right_pad, StickAxis { x: 500, y: -500 });
}

#[test]
fn decodes_unknown_counter_32_and_imu() {
    let state = decode(&synthetic_report()).unwrap();
    assert_eq!(state.unknown_counter_32, 130);
    assert_eq!(state.imu.accel, [10, 20, 30]);
    assert_eq!(state.imu.gyro, [40, 50, 60]);
}

#[test]
fn left_stick_cap_touch_synthesized_from_status_byte() {
    let mut r = synthetic_report();
    assert!(!decode(&r).unwrap().buttons.contains(ButtonFlags::LEFT_STICK_CAP_TOUCH));

    r[STATUS] = 0x01;
    assert!(decode(&r).unwrap().buttons.contains(ButtonFlags::LEFT_STICK_CAP_TOUCH));
}

#[test]
fn left_stick_cap_touch_fires_alongside_grip_bit() {
    let mut r = synthetic_report();

    r[STATUS] = 0x20;
    assert!(!decode(&r).unwrap().buttons.contains(ButtonFlags::LEFT_STICK_CAP_TOUCH));

    r[STATUS] = 0x21;
    assert!(decode(&r).unwrap().buttons.contains(ButtonFlags::LEFT_STICK_CAP_TOUCH));
}

#[test]
fn right_stick_click_distinct_from_right_pad_click() {
    let mut r = synthetic_report();
    r[BUTTONS_0] |= 0x20;
    let state = decode(&r).unwrap();
    assert!(state.buttons.contains(ButtonFlags::RIGHT_STICK_CLICK));
    assert!(!state.buttons.contains(ButtonFlags::RIGHT_PAD_CLICK));
}

#[test]
fn decodes_left_pad_touch_and_click() {
    let mut r = synthetic_report();
    r[LEFT_PAD_X..LEFT_PAD_X + 2].copy_from_slice(&0i16.to_le_bytes());
    r[LEFT_PAD_Y..LEFT_PAD_Y + 2].copy_from_slice(&0i16.to_le_bytes());

    r[STATUS] = 0x02;
    let state_touch = decode(&r).unwrap();
    assert!(state_touch.buttons.contains(ButtonFlags::LEFT_PAD_TOUCH));
    assert!(!state_touch.buttons.contains(ButtonFlags::LEFT_PAD_CLICK));

    r[STATUS] = 0x06;
    let state_click = decode(&r).unwrap();
    assert!(state_click.buttons.contains(ButtonFlags::LEFT_PAD_TOUCH));
    assert!(state_click.buttons.contains(ButtonFlags::LEFT_PAD_CLICK));
}

#[test]
fn rejects_wrong_report_id() {
    let mut r = synthetic_report();
    r[0] = 0x01;
    assert!(matches!(decode(&r), Err(DecodeError::UnexpectedReportId(0x01))));
}

#[test]
fn rejects_too_short() {
    assert!(matches!(decode(&[0x42, 0x00]), Err(DecodeError::TooShort)));
}

#[test]
fn decodes_telemetry_signal_strength() {
    let mut r = [0u8; TELEMETRY_MIN_LEN];
    r[0] = TELEMETRY_REPORT_ID;
    r[9] = 0xce;
    let telemetry = decode_telemetry(&r).unwrap();
    assert_eq!(telemetry.signal_dbm, -50);
}

#[test]
fn telemetry_rejects_wrong_report_id() {
    let mut r = [0u8; TELEMETRY_MIN_LEN];
    r[0] = 0x42;
    assert!(matches!(decode_telemetry(&r), Err(DecodeError::UnexpectedReportId(0x42))));
}

#[test]
fn telemetry_rejects_too_short() {
    assert!(matches!(
        decode_telemetry(&[TELEMETRY_REPORT_ID, 0x00]),
        Err(DecodeError::TooShort)
    ));
}

#[test]
fn rejects_empty_report() {
    assert_eq!(decode(&[]), Err(DecodeError::TooShort));
    assert_eq!(decode_telemetry(&[]), Err(DecodeError::TooShort));
}

#[test]
fn wrong_id_reported_even_when_short() {
    assert_eq!(decode(&[0x7b]), Err(DecodeError::UnexpectedReportId(0x7b)));
    assert_eq!(decode_telemetry(&[0x42, 1]), Err(DecodeError::UnexpectedReportId(0x42)));
}

#[test]
fn exactly_minimum_length_decodes() {
    let r = synthetic_report();
    assert!(decode(&r[..MIN_REPORT_LEN]).is_ok());
    assert_eq!(decode(&r[..MIN_REPORT_LEN - 1]), Err(DecodeError::TooShort));
}

#[test]
fn trailing_bytes_are_ignored() {
    let r = synthetic_report();
    let mut longer = r.clone();
    longer.extend_from_slice(&[0xff, 0x7f, 0, 0, 0, 0, 0, 0, 0xaa, 0x55]);
    assert_eq!(decode(&r), decode(&longer));
}

#[test]
fn reserved_button_bit_never_surfaces() {
    let mut r = synthetic_report();
    r[BUTTONS_2] = 0x80;
    let state = decode(&r).unwrap();
    assert!(!state.buttons.contains(ButtonFlags::LEFT_PAD_CLICK));
    assert_eq!(state.buttons.bits() & !ButtonFlags::ALL_BITS, 0);
    assert_eq!((state.buttons.bits() >> 16) & 0x7f, 0);
}

#[test]
fn button_bytes_appear_verbatim() {
    let mut r = synthetic_report();
    r[BUTTONS_0] = 0xa5;
    r[BUTTONS_1] = 0x5a;
    r[BUTTONS_2] = 0x7f;
    r[LEFT_PAD_X..LEFT_PAD_X + 4].copy_from_slice(&[0, 0, 0, 0]);
    let state = decode(&r).unwrap();
    assert_eq!(state.buttons.bits(), 0x007f_5aa5);
}

#[test]
fn left_pad_position_synthesizes_touch() {
    let mut r = synthetic_report();
    r[STATUS] = 0;
    let state = decode(&r).unwrap();
    assert!(state.buttons.contains(ButtonFlags::LEFT_PAD_TOUCH));
    r[LEFT_PAD_X..LEFT_PAD_X + 4].copy_from_slice(&[0, 0, 0, 0]);
    let state = decode(&r).unwrap();
    assert!(!state.buttons.contains(ButtonFlags::LEFT_PAD_TOUCH));
}

#[test]
fn little_endian_extremes() {
    let mut r = synthetic_report();
    r[LEFT_STICK_X..LEFT_STICK_X + 2].copy_from_slice(&[0x00, 0x80]);
    r[LEFT_STICK_Y..LEFT_STICK_Y + 2].copy_from_slice(&[0xff, 0x7f]);
    r[LEFT_TRIGGER..LEFT_TRIGGER + 2].copy_from_slice(&[0xff, 0xff]);
    let state = decode(&r).unwrap();
    assert_eq!(state.left_stick, StickAxis { x: i16::MIN, y: i16::MAX });
    assert_eq!(state.left_trigger, u16::MAX);
}

#[test]
fn telemetry_signal_sign_boundaries() {
    let mut r = [0u8; TELEMETRY_MIN_LEN + 3];
    r[0] = TELEMETRY_REPORT_ID;
    r[9] = 0x7f;
    assert_eq!(decode_telemetry(&r).unwrap().signal_dbm, 127);
    r[9] = 0x80;
    assert_eq!(decode_telemetry(&r).unwrap().signal_dbm, -128);
    r[9] = 0xff;
    assert_eq!(decode_telemetry(&r).unwrap().signal_dbm, -1);
}

#[test]
fn decode_error_messages() {
    assert_eq!(DecodeError::TooShort.message(), "report too short to decode");
    assert_eq!(DecodeError::UnexpectedReportId(0x01).message(), "unexpected report id: 0x01");
    assert_eq!(DecodeError::UnexpectedReportId(0x7b).message(), "unexpected report id: 0x7b");
}
