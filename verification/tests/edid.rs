use brightness_core::edid::parse;

fn synth() -> Vec<u8> {
    let mut e = vec![0u8; 128];
    e[0..8].copy_from_slice(&[0x00, 0xFF, 0xFF, 0xFF, 0xFF, 0xFF, 0xFF, 0x00]);
    e[8] = 0x10;
    e[9] = 0xAC;
    e[10] = 0xE5;
    e[11] = 0xA0;
    e[17] = 30;
    let header = [0u8, 0, 0, 0xFC, 0];
    e[54..54 + 5].copy_from_slice(&header);
    let name = b"DELL U2720Q\n ";
    e[59..59 + name.len()].copy_from_slice(name);
    e
}

#[test]
fn parses_synthetic_edid() {
    let p = parse(&synth()).expect("parse");
    assert_eq!(p.manufacturer, "DEL");
    assert_eq!(p.product_code, 0xA0E5);
    assert_eq!(p.year_of_manufacture, 2020);
    assert_eq!(p.model_name, "DELL U2720Q");
}

#[test]
fn rejects_wrong_header() {
    let mut e = synth();
    e[0] = 0xFF;
    assert!(parse(&e).is_none());
}

#[test]
fn tolerates_padded_payload() {
    let mut e = synth();
    e[59..72].fill(0x20);
    e[59..63].copy_from_slice(b"ACME");
    e[63] = 0x0A;
    let p = parse(&e).unwrap();
    assert_eq!(p.model_name, "ACME");
}

#[test]
fn rejects_short_block() {
    let e = synth();
    assert!(parse(&e[..127]).is_none());
}

#[test]
fn manufacturer_out_of_range_is_empty() {
    let mut e = synth();
    // First letter 0 (not A..Z): the code is left empty.
    e[8] = 0x00;
    e[9] = 0xAC;
    let p = parse(&e).unwrap();
    assert_eq!(p.manufacturer, "");
    assert_eq!(p.model_name, "DELL U2720Q");
}

#[test]
fn serial_descriptor_and_last_descriptor_wins() {
    let mut e = synth();
    e[72..77].copy_from_slice(&[0, 0, 0, 0xFF, 0]);
    e[77..90].copy_from_slice(b"SN12345\n     ");
    e[90..95].copy_from_slice(&[0, 0, 0, 0xFC, 0]);
    e[95..108].copy_from_slice(b"  SECOND\x01 \0xx");
    let p = parse(&e).unwrap();
    assert_eq!(p.serial_string, "SN12345");
    assert_eq!(p.model_name, "SECOND");
}
