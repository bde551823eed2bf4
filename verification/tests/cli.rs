use brightness_core::cli::{
    average, list_line, parse_sysfs_u32, select, vcp_codes_line, vcp_get_line, vcp_set_line, HexU8,
};
use brightness_core::number::IntError;
use brightness_core::MonitorKind;

#[test]
fn rejects_invalid_vcp_code() {
    // A VCP code is a byte: "999" does not fit.
    let e = HexU8::parse("999").unwrap_err();
    assert_eq!(e, "bad VCP code: number too large to fit in target type");
}

#[test]
fn no_id_match_returns_clear_error() {
    let ids = vec!["win:\\\\.\\DISPLAY1#0".to_string(), "linux:/dev/i2c-4".to_string()];
    let e = select(&ids, Some("definitely-not-a-real-id")).unwrap_err();
    assert_eq!(e, "no monitor with id definitely-not-a-real-id");
}

#[test]
fn hex_u8_accepts_the_documented_forms() {
    assert_eq!(HexU8::parse("0x10").unwrap().0, 0x10);
    assert_eq!(HexU8::parse("0X1f").unwrap().0, 0x1F);
    assert_eq!(HexU8::parse("16").unwrap().0, 16);
    assert_eq!(HexU8::parse(" 255 ").unwrap().0, 255);
    assert_eq!(HexU8::parse("ff").unwrap().0, 0xFF);
    assert_eq!(HexU8::parse("1A").unwrap().0, 0x1A);
    assert_eq!(HexU8::parse("+9").unwrap().0, 9);
    let v: HexU8 = "0x60".parse().unwrap();
    assert_eq!(v.0, 0x60);
}

#[test]
fn hex_u8_error_kinds() {
    assert_eq!(HexU8::parse("").unwrap_err(), "bad VCP code: cannot parse integer from empty string");
    assert_eq!(HexU8::parse("0x").unwrap_err(), "bad VCP code: cannot parse integer from empty string");
    assert_eq!(HexU8::parse("1g").unwrap_err(), "bad VCP code: invalid digit found in string");
    assert_eq!(HexU8::parse("0x100").unwrap_err(), "bad VCP code: number too large to fit in target type");
}

#[test]
fn select_all_and_first_match() {
    let ids = vec!["a".to_string(), "b".to_string(), "a".to_string()];
    assert_eq!(select(&ids, None).unwrap(), vec![0, 1, 2]);
    assert_eq!(select(&ids, Some("a")).unwrap(), vec![0]);
    assert_eq!(select(&ids, Some("b")).unwrap(), vec![1]);
    let none: Vec<String> = Vec::new();
    assert_eq!(select(&none, None).unwrap(), Vec::<usize>::new());
}

#[test]
fn sysfs_numbers() {
    assert_eq!(parse_sysfs_u32("120000\n"), Ok(120000));
    assert_eq!(parse_sysfs_u32("  7 "), Ok(7));
    assert_eq!(parse_sysfs_u32("4294967295"), Ok(u32::MAX));
    assert_eq!(parse_sysfs_u32("4294967296"), Err(IntError::PosOverflow));
    assert_eq!(parse_sysfs_u32("\n"), Err(IntError::Empty));
    assert_eq!(parse_sysfs_u32("12a"), Err(IntError::InvalidDigit));
    assert_eq!(parse_sysfs_u32("-1"), Err(IntError::InvalidDigit));
}

#[test]
fn output_lines() {
    assert_eq!(list_line("linux:/dev/i2c-4", "DELL", MonitorKind::External), "linux:/dev/i2c-4\tDELL\t[external]");
    assert_eq!(vcp_get_line("m", "Mon", 0x12, &Ok((40, 100))), "m\tMon\tVCP 0x12\t40/100");
    assert_eq!(vcp_get_line("m", "Mon", 0xD6, &Err("timeout".to_string())), "m\tMon\tVCP 0xD6\tERROR: timeout");
    assert_eq!(vcp_set_line("m", "Mon", 0x14, 5, &None, Some((5, 11))), "m\tMon\tSET 0x14=5\tnow 5/11");
    assert_eq!(vcp_set_line("m", "Mon", 0x14, 5, &None, None), "m\tMon\tSET 0x14=5\tnow 0/0");
    assert_eq!(vcp_set_line("m", "Mon", 0x14, 5, &Some("busy".to_string()), None), "m\tMon\tSET 0x14\tERROR: busy");
    assert_eq!(vcp_codes_line(&vec![0x10, 0x12, 0xD6]), "  vcp codes: 0x10 0x12 0xD6");
    assert_eq!(vcp_codes_line(&vec![]), "  vcp codes: ");
}

#[test]
fn benchmark_average() {
    assert_eq!(average(1000, 4), 250);
    assert_eq!(average(1001, 4), 250);
    assert_eq!(average(77, 0), 77);
}

