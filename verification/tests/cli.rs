use steam_controller_x::cli::{hex_id, log_level, parse_replay_line, parse_u16, to_hex, ReplayLine};
use steam_controller_x::text::IntErrorKind;

#[test]
fn parses_hex_and_decimal_ids() {
    assert_eq!(parse_u16("0x28de"), Ok(0x28de));
    assert_eq!(parse_u16("0X1302"), Ok(0x1302));
    assert_eq!(parse_u16("  4866 \n"), Ok(4866));
    assert_eq!(parse_u16("+12"), Ok(12));
    assert_eq!(parse_u16("0x+ff"), Ok(0xff));
    assert_eq!(parse_u16("65535"), Ok(65535));
}

#[test]
fn id_parse_errors_match_std_messages() {
    assert_eq!(parse_u16(""), Err("cannot parse integer from empty string".to_string()));
    assert_eq!(parse_u16("0x"), Err("cannot parse integer from empty string".to_string()));
    assert_eq!(parse_u16("12a"), Err("invalid digit found in string".to_string()));
    assert_eq!(parse_u16("-1"), Err("invalid digit found in string".to_string()));
    assert_eq!(parse_u16("+"), Err("invalid digit found in string".to_string()));
    assert_eq!(parse_u16("65536"), Err("number too large to fit in target type".to_string()));
    assert_eq!(parse_u16("0x10000"), Err("number too large to fit in target type".to_string()));
    assert_eq!(parse_u16("99999x"), Err("number too large to fit in target type".to_string()));
}

#[test]
fn id_parsing_agrees_with_std() {
    for s in ["0", "1", "+7", "-7", "65535", "65536", "x", "1 2", "007", "٣"] {
        let ours = parse_u16(s);
        let std = s.trim().parse::<u16>().map_err(|e| e.to_string());
        assert_eq!(ours, std, "input {s:?}");
    }
    for s in ["ff", "FFFF", "10000", "g", "", "+a"] {
        let ours = parse_u16(&format!("0x{s}"));
        let std = u16::from_str_radix(s, 16).map_err(|e| e.to_string());
        assert_eq!(ours, std, "input 0x{s:?}");
    }
}

#[test]
fn hex_dump_format() {
    assert_eq!(to_hex(&[]), "");
    assert_eq!(to_hex(&[0x42]), "42");
    assert_eq!(to_hex(&[0x42, 0x00, 0xff, 0x0a]), "42 00 ff 0a");
}

#[test]
fn log_levels() {
    assert_eq!(log_level(0), "info");
    assert_eq!(log_level(1), "debug");
    assert_eq!(log_level(2), "trace");
    assert_eq!(log_level(200), "trace");
}

#[test]
fn replay_skips_blank_and_comment_lines() {
    assert_eq!(parse_replay_line(""), ReplayLine::Skip);
    assert_eq!(parse_replay_line("   \t"), ReplayLine::Skip);
    assert_eq!(parse_replay_line("  # a comment 42"), ReplayLine::Skip);
}

#[test]
fn replay_reads_hex_bytes() {
    assert_eq!(parse_replay_line("42 01 ff"), ReplayLine::Report(vec![0x42, 0x01, 0xff]));
    assert_eq!(parse_replay_line("   1.250 42 0x0a 0x0x0b"), ReplayLine::Report(vec![0x42, 0x0a, 0x0b]));
    assert_eq!(parse_replay_line("0.5"), ReplayLine::Report(vec![]));
}

#[test]
fn replay_reports_first_bad_token() {
    assert_eq!(parse_replay_line("42 zz 100"), ReplayLine::InvalidHex(IntErrorKind::InvalidDigit));
    assert_eq!(parse_replay_line("42 100 zz"), ReplayLine::InvalidHex(IntErrorKind::PosOverflow));
    assert_eq!(parse_replay_line("42 0x"), ReplayLine::InvalidHex(IntErrorKind::Empty));
}

#[test]
fn dumped_line_replays_to_its_bytes() {
    let bytes: Vec<u8> = vec![0x42, 0x07, 0x00, 0xff, 0x80, 0x0a];
    let line = to_hex(&bytes);
    assert_eq!(parse_replay_line(&line), ReplayLine::Report(bytes.clone()));
    let stamped = format!("   12.345 {}", line);
    assert_eq!(parse_replay_line(&stamped), ReplayLine::Report(bytes));
}

#[test]
fn listed_ids_parse_back() {
    for v in [0u16, 0x0001, 0x1302, 0x1304, 0x28de, 0xffff] {
        let shown = hex_id(v);
        assert_eq!(parse_u16(&shown), Ok(v));
    }
    assert_eq!(hex_id(0x28de), "0x28de");
    assert_eq!(hex_id(0x00ab), "0x00ab");
}

#[test]
fn ids_parse_back_in_every_written_form() {
    for v in [0u16, 1, 9, 10, 15, 16, 255, 256, 0x1302, 0x28de, 0xabcd, 0xffff] {
        assert_eq!(parse_u16(&format!("{v:#x}")), Ok(v));
        assert_eq!(parse_u16(&format!("{v:#X}").replacen("0x", "0X", 1)), Ok(v));
        assert_eq!(parse_u16(&format!("0X{v:x}")), Ok(v));
        assert_eq!(parse_u16(&v.to_string()), Ok(v));
        assert_eq!(parse_u16(&format!("  {v}  ")), Ok(v));
        assert_eq!(parse_u16(&format!("\t{v:#x}\n")), Ok(v));
    }
}
