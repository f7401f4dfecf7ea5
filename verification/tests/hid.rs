use steam_controller_x::hid::{
    devices_with_vendor, parse_motor, plan_open, probe_step, rumble_report, DeviceFilter,
    DeviceSummary, Motor, OpenPlan, ProbeStep, DEFAULT_PID, VALVE_VID, WIRELESS_PUCK_PID,
};

#[test]
fn default_filter_is_wired_controller() {
    let f = DeviceFilter::default();
    assert_eq!(f.vid, 0x28de);
    assert_eq!(f.pid, Some(0x1302));
    assert_eq!(VALVE_VID, 0x28de);
    assert_eq!(DEFAULT_PID, 0x1302);
    assert_eq!(WIRELESS_PUCK_PID, 0x1304);
}

#[test]
fn filter_matching() {
    let f = DeviceFilter { vid: VALVE_VID, pid: Some(DEFAULT_PID) };
    assert!(f.matches(0x28de, 0x1302));
    assert!(!f.matches(0x28de, 0x1304));
    assert!(!f.matches(0x045e, 0x1302));
    let any = DeviceFilter { vid: VALVE_VID, pid: None };
    assert!(any.matches(0x28de, 0x1304));
    assert!(!any.matches(0x045e, 0x1304));
}

#[test]
fn rumble_reports_per_motor() {
    assert_eq!(rumble_report(Motor::A, 0xff), vec![0x80, 0, 0, 0, 0xff, 0xff, 0, 0, 0, 0]);
    assert_eq!(rumble_report(Motor::B, 0x10), vec![0x80, 0, 0, 0, 0, 0, 0, 0x10, 0x10, 0]);
    assert_eq!(rumble_report(Motor::C, 0x7f), vec![0x81, 0, 0x7f, 0, 0, 0, 0, 0]);
    assert_eq!(rumble_report(Motor::D, 0x01), vec![0x84, 0, 0, 0x01, 0, 0, 0, 0, 0]);
}

#[test]
fn motor_names() {
    assert_eq!(parse_motor("a"), Some(Motor::A));
    assert_eq!(parse_motor("B"), Some(Motor::B));
    assert_eq!(parse_motor("c"), Some(Motor::C));
    assert_eq!(parse_motor("D"), Some(Motor::D));
    assert_eq!(parse_motor("e"), None);
    assert_eq!(parse_motor("aa"), None);
    assert_eq!(parse_motor(""), None);
}

#[test]
fn open_plans() {
    assert_eq!(plan_open(0), OpenPlan::NotFound);
    assert_eq!(plan_open(1), OpenPlan::OpenOnly);
    assert_eq!(plan_open(4), OpenPlan::Probe);
}

#[test]
fn probing_picks_first_responsive_or_falls_back() {
    let run = |responds: &[bool]| -> usize {
        let mut i = 0;
        loop {
            match probe_step(i, responds.len(), responds[i]) {
                ProbeStep::Accept(k) => return k,
                ProbeStep::Next(j) => i = j,
                ProbeStep::Fallback => return 0,
            }
        }
    };
    assert_eq!(run(&[false, false, true, true]), 2);
    assert_eq!(run(&[true, false]), 0);
    assert_eq!(run(&[false, false, false]), 0);
}

fn summary(vid: u16, pid: u16, path: &str) -> DeviceSummary {
    DeviceSummary { vid, pid, path: path.to_string(), product: None, serial: None }
}

#[test]
fn vendor_filter_keeps_order() {
    let all = vec![
        summary(0x28de, 0x1302, "a"),
        summary(0x045e, 0x028e, "b"),
        summary(0x28de, 0x1304, "c"),
    ];
    let kept = devices_with_vendor(all, 0x28de);
    let paths: Vec<&str> = kept.iter().map(|d| d.path.as_str()).collect();
    assert_eq!(paths, vec!["a", "c"]);
    assert!(devices_with_vendor(vec![summary(1, 2, "x")], 0x28de).is_empty());
}
