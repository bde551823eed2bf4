use brightness_core::ddc::{
    decode_capabilities_reply, decode_get_vcp_reply, encode_capabilities_request, encode_get_vcp,
    encode_set_vcp, reply_checksum, VcpType, DISPLAY_SRC, OPCODE_CAP_REPLY,
};
use brightness_core::Error;

#[test]
fn set_vcp_frame_layout() {
    let f = encode_set_vcp(0x10, 50);
    assert_eq!(f, [0x51, 0x84, 0x03, 0x10, 0x00, 0x32, 0x9A]);
}

#[test]
fn get_vcp_frame_layout() {
    let f = encode_get_vcp(0x10);
    assert_eq!(f, [0x51, 0x82, 0x01, 0x10, 0xAC]);
}

#[test]
fn cap_request_frame_layout() {
    let f = encode_capabilities_request(0);
    assert_eq!(f, [0x51, 0x83, 0xF3, 0x00, 0x00, 0x4F]);
}

#[test]
fn decode_get_vcp_reply_roundtrip() {
    let payload = [DISPLAY_SRC, 0x88, 0x02, 0x00, 0x10, 0x00, 0x00, 0x64, 0x00, 0x32];
    let mut buf = payload.to_vec();
    buf.push(reply_checksum(&payload));

    let r = decode_get_vcp_reply(&buf).unwrap();
    assert_eq!(r.code, 0x10);
    assert_eq!(r.vcp_type, VcpType::SetParameter);
    assert_eq!(r.maximum, 100);
    assert_eq!(r.current, 50);
}

#[test]
fn decode_get_vcp_reply_rejects_bad_checksum() {
    let payload = [DISPLAY_SRC, 0x88, 0x02, 0x00, 0x10, 0x00, 0x00, 0x64, 0x00, 0x32];
    let mut buf = payload.to_vec();
    buf.push(0xFF);
    let err = decode_get_vcp_reply(&buf).unwrap_err();
    assert!(matches!(err, Error::Checksum));
}

#[test]
fn decode_get_vcp_reply_rejects_unsupported() {
    let payload = [DISPLAY_SRC, 0x88, 0x02, 0x01, 0x10, 0x00, 0x00, 0x64, 0x00, 0x32];
    let mut buf = payload.to_vec();
    buf.push(reply_checksum(&payload));
    let err = decode_get_vcp_reply(&buf).unwrap_err();
    assert!(matches!(err, Error::Protocol(_)));
}

#[test]
fn decode_capabilities_fragment() {
    let payload = [DISPLAY_SRC, 0x80 | 6, OPCODE_CAP_REPLY, 0x00, 0x00, b'a', b'b', b'c'];
    let mut buf = payload.to_vec();
    buf.push(reply_checksum(&payload));

    let frag = decode_capabilities_reply(&buf).unwrap();
    assert_eq!(frag.offset, 0);
    assert_eq!(frag.data, b"abc");
}

#[test]
fn reply_checksum_known_value() {
    // 0x6E ^ 0x6E ^ 0x88 = 0x88
    assert_eq!(reply_checksum(&[0x6E, 0x88]), 0x88);
    assert_eq!(reply_checksum(&[]), 0x6E);
    assert_eq!(reply_checksum(&[0x01, 0x02]), 0x6D);
}

#[test]
fn decode_get_vcp_reply_error_messages() {
    let short = decode_get_vcp_reply(&[0x6E, 0x88, 0x02]).unwrap_err();
    assert_eq!(short.to_string(), "DDC/CI protocol error: reply too short: 3 bytes");

    let tiny = decode_get_vcp_reply(&[0x6E, 0x83, 0x02, 0, 0x10, 0, 0, 0x64, 0, 0x32, 0]).unwrap_err();
    assert_eq!(tiny.to_string(), "DDC/CI protocol error: reply length too small: 3");

    let cut = decode_get_vcp_reply(&[0x6E, 0x89, 0x02, 0, 0x10, 0, 0, 0x64, 0, 0x32, 0]).unwrap_err();
    assert_eq!(cut.to_string(), "DDC/CI protocol error: truncated reply payload");

    let wrong_src = decode_get_vcp_reply(&[0x6F, 0x88, 0x02, 0, 0x10, 0, 0, 0x64, 0, 0x32, 0]).unwrap_err();
    assert_eq!(wrong_src.to_string(), "DDC/CI protocol error: unexpected source byte: 0x6F");

    let payload = [DISPLAY_SRC, 0x88, 0x05, 0x00, 0x10, 0x00, 0x00, 0x64, 0x00, 0x32];
    let mut buf = payload.to_vec();
    buf.push(reply_checksum(&payload));
    let wrong_op = decode_get_vcp_reply(&buf).unwrap_err();
    assert_eq!(wrong_op.to_string(), "DDC/CI protocol error: unexpected opcode: 0x05");

    let payload = [DISPLAY_SRC, 0x88, 0x02, 0x01, 0x10, 0x00, 0x00, 0x64, 0x00, 0x32];
    let mut buf = payload.to_vec();
    buf.push(reply_checksum(&payload));
    let unsupported = decode_get_vcp_reply(&buf).unwrap_err();
    assert_eq!(unsupported.to_string(), "DDC/CI protocol error: VCP not supported, result=0x01");
}

#[test]
fn decode_get_vcp_reply_momentary_and_other_types() {
    for (ty, expected) in [(0x01u8, VcpType::Momentary), (0x07u8, VcpType::Other(0x07))] {
        let payload = [DISPLAY_SRC, 0x88, 0x02, 0x00, 0x12, ty, 0x01, 0x00, 0x00, 0x80];
        let mut buf = payload.to_vec();
        buf.push(reply_checksum(&payload));
        let r = decode_get_vcp_reply(&buf).unwrap();
        assert_eq!(r.code, 0x12);
        assert_eq!(r.vcp_type, expected);
        assert_eq!(r.maximum, 256);
        assert_eq!(r.current, 128);
    }
}

#[test]
fn decode_capabilities_reply_rejects_bad_checksum() {
    let buf = [DISPLAY_SRC, 0x80 | 6, OPCODE_CAP_REPLY, 0x00, 0x20, b'a', b'b', b'c', 0x00];
    let err = decode_capabilities_reply(&buf).unwrap_err();
    assert!(matches!(err, Error::Checksum));
}

#[test]
fn decode_capabilities_fragment_offset() {
    let payload = [DISPLAY_SRC, 0x80 | 4, OPCODE_CAP_REPLY, 0x01, 0x20, b'z'];
    let mut buf = payload.to_vec();
    buf.push(reply_checksum(&payload));
    let frag = decode_capabilities_reply(&buf).unwrap();
    assert_eq!(frag.offset, 0x0120);
    assert_eq!(frag.data, b"z");
}

#[test]
fn decode_capabilities_reply_error_messages() {
    let e = decode_capabilities_reply(&[0x6E, 0x83, 0xE3]).unwrap_err();
    assert_eq!(e.to_string(), "DDC/CI protocol error: cap reply too short");
    let e = decode_capabilities_reply(&[0x6F, 0x83, 0xE3, 0, 0, 0]).unwrap_err();
    assert_eq!(e.to_string(), "DDC/CI protocol error: cap reply bad source");
    let e = decode_capabilities_reply(&[0x6E, 0x8A, 0xE3, 0, 0, 0]).unwrap_err();
    assert_eq!(e.to_string(), "DDC/CI protocol error: cap reply truncated");
    let e = decode_capabilities_reply(&[0x6E, 0x83, 0xE4, 0, 0, 0]).unwrap_err();
    assert_eq!(e.to_string(), "DDC/CI protocol error: cap reply bad opcode");
}

#[test]
fn set_vcp_frame_high_value() {
    // 0x6E ^ 0x51 ^ 0x84 ^ 0x03 ^ 0x12 ^ 0x01 ^ 0x2C = 0x87
    assert_eq!(encode_set_vcp(0x12, 300), [0x51, 0x84, 0x03, 0x12, 0x01, 0x2C, 0x87]);
}

#[test]
fn cap_request_frame_offset() {
    // 0x6E ^ 0x51 ^ 0x83 ^ 0xF3 ^ 0x00 ^ 0x20 = 0x6F
    assert_eq!(encode_capabilities_request(0x20), [0x51, 0x83, 0xF3, 0x00, 0x20, 0x6F]);
}
