use brightness_core::caps::parse;

#[test]
fn parse_minimal() {
    let s = "(prot(monitor)type(LCD)model(EX)vcp(10 12 14(05 06 08) 60(01 11)))";
    let c = parse(s);
    assert_eq!(c.model.as_deref(), Some("EX"));
    assert_eq!(c.display_type.as_deref(), Some("LCD"));
    assert_eq!(c.protocol.as_deref(), Some("monitor"));
    assert!(c.supports(0x10));
    assert!(c.supports(0x12));
    assert_eq!(c.vcp.get(&0x14), Some(&vec![0x05, 0x06, 0x08]));
    assert_eq!(c.vcp.get(&0x60), Some(&vec![0x01, 0x11]));
    assert!(!c.supports(0xFF));
}

#[test]
fn parse_no_outer_parens() {
    let s = "vcp(10 12)";
    let c = parse(s);
    assert!(c.supports(0x10));
    assert!(c.supports(0x12));
}

#[test]
fn parse_truncated_caps_does_not_panic() {
    let s = "(vcp(10 12";
    let _ = parse(s);
}

#[test]
fn parse_keeps_raw_string() {
    let s = "  (model(X) vcp(10)) ";
    let c = parse(s);
    assert_eq!(c.raw, s);
    assert_eq!(c.model.as_deref(), Some("X"));
    assert_eq!(c.vcp.get(&0x10), Some(&vec![]));
}

#[test]
fn parse_protocol_long_key_and_unknown_groups() {
    let c = parse("(protocol(mccs)cmds(01 02)mccs_ver(2.1)vcp(D6(01 04)))");
    assert_eq!(c.protocol.as_deref(), Some("mccs"));
    assert_eq!(c.model, None);
    assert_eq!(c.display_type, None);
    assert_eq!(c.vcp.len(), 1);
    assert_eq!(c.vcp.get(&0xD6), Some(&vec![0x01, 0x04]));
}

#[test]
fn parse_later_group_wins_and_vcp_groups_merge() {
    let c = parse("model(A)model(B)vcp(10)vcp(12(03))");
    assert_eq!(c.model.as_deref(), Some("B"));
    assert!(c.supports(0x10));
    assert_eq!(c.vcp.get(&0x12), Some(&vec![0x03]));
}

#[test]
fn parse_empty_string() {
    let c = parse("");
    assert_eq!(c.raw, "");
    assert!(c.vcp.is_empty());
    assert_eq!(c.model, None);
}

#[test]
fn parse_oversized_code_reads_its_list_as_codes() {
    let c = parse("vcp(100(01 02) 14)");
    assert!(!c.vcp.contains_key(&0x00));
    assert_eq!(c.vcp.get(&0x01), Some(&vec![]));
    assert_eq!(c.vcp.get(&0x02), Some(&vec![]));
    assert_eq!(c.vcp.get(&0x14), Some(&vec![]));
    assert_eq!(c.vcp.len(), 3);
}

#[test]
fn parse_value_tokens_that_do_not_parse_are_dropped() {
    let c = parse("vcp(60(0F zz +11 10000 FFFF))");
    assert_eq!(c.vcp.get(&0x60), Some(&vec![0x0F, 0x11, 0xFFFF]));
}

#[test]
fn vcp_codes_are_sorted_and_complete() {
    let c = parse("(vcp(D6 10 60(01 03) 12 10))");
    assert_eq!(c.vcp_codes(), vec![0x10, 0x12, 0x60, 0xD6]);
    assert_eq!(parse("model(X)").vcp_codes(), Vec::<u8>::new());
}
