use steam_controller_x::input_devices::find_event_devices;

const SAMPLE: &str = "I: Bus=0003 Vendor=28de Product=1304 Version=0111
N: Name=\"Valve Software Steam Controller Puck Mouse\"
H: Handlers=mouse2 event12
B: EV=17

I: Bus=0003 Vendor=046d Product=c52b Version=0111
N: Name=\"Logitech\"
H: Handlers=sysrq kbd event3

I: Bus=0003 Vendor=28de Product=1304 Version=0111
N: Name=\"Valve Software Steam Controller Puck Keyboard\"
H: Handlers=sysrq kbd leds event13 eventx
";

#[test]
fn finds_event_nodes_of_matching_blocks() {
    assert_eq!(
        find_event_devices(SAMPLE, 0x28de, 0x1304),
        vec!["/dev/input/event12", "/dev/input/event13", "/dev/input/eventx"]
    );
}

#[test]
fn other_ids_find_their_own_blocks() {
    assert_eq!(find_event_devices(SAMPLE, 0x046d, 0xc52b), vec!["/dev/input/event3"]);
    assert!(find_event_devices(SAMPLE, 0x28de, 0x1302).is_empty());
    assert!(find_event_devices("", 0x28de, 0x1304).is_empty());
}

#[test]
fn crlf_lines_and_missing_info_line() {
    let text = "I: Vendor=28de Product=1302\r\nH: Handlers=event7\r\n\r\nN: Name=x\nH: Handlers=event8\n";
    assert_eq!(
        find_event_devices(text, 0x28de, 0x1302),
        vec!["/dev/input/event7", "/dev/input/event8"]
    );
    let text = "I: Vendor=28de Product=1302\nH: Handlers=event7\n\nN: Name=x\nH: Handlers=event8\n";
    assert_eq!(find_event_devices(text, 0x28de, 0x1302), vec!["/dev/input/event7"]);
}
