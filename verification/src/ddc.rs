//! DDC/CI wire-format encoding and decoding.
//!
//! The protocol on the I²C bus uses address 0x37 (host destination) and 0x51
//! (display source). Every frame ends with an XOR checksum whose seed is the
//! host I²C address shifted left by one (0x6E), in both directions.

use vstd::prelude::*;

use crate::error::{error_is, Error, Fault, Result};
use crate::text::{hex2_upper, push_hex2_upper, push_decimal, dec_digits};
use vstd::slice::slice_to_vec;

verus! {

/// I²C 7-bit slave address used by DDC/CI displays.
pub const DDC_ADDR: u8 = 0x37;
/// Source byte placed in DDC/CI frames sent by the host.
pub const HOST_SRC: u8 = 0x51;
/// Source byte placed in DDC/CI frames sent by the display.
pub const DISPLAY_SRC: u8 = 0x6E;
/// XOR seed used by the display when computing reply checksum (host I²C addr << 1).
pub const REPLY_XOR_SEED: u8 = 0x6E;

/// Recommended minimum delay between consecutive DDC/CI frames (50 ms per spec).
pub const MIN_INTERVAL_MS: u64 = 50;
/// Recommended delay between Get-VCP request and the reply read (40 ms per spec).
pub const VCP_REQUEST_REPLY_DELAY_MS: u64 = 40;

pub const OPCODE_GET_VCP: u8 = 0x01;
pub const OPCODE_GET_VCP_REPLY: u8 = 0x02;
pub const OPCODE_SET_VCP: u8 = 0x03;
pub const OPCODE_CAP_REQUEST: u8 = 0xF3;
pub const OPCODE_CAP_REPLY: u8 = 0xE3;

/// XOR of `seed` and every byte of `s`.
pub open spec fn xor_fold(seed: u8, s: Seq<u8>) -> u8
    decreases s.len(),
{
    if s.len() == 0 {
        seed
    } else {
        xor_fold(seed, s.drop_last()) ^ s.last()
    }
}

/// A frame: the payload followed by its checksum byte.
pub open spec fn with_checksum(payload: Seq<u8>) -> Seq<u8> {
    payload.push(xor_fold(0x6E, payload))
}

/// The last byte of `frame` is the checksum of the bytes before it.
pub open spec fn checksum_ok(frame: Seq<u8>) -> bool {
    frame.len() > 0 && xor_fold(REPLY_XOR_SEED, frame.drop_last()) == frame.last()
}

pub open spec fn hi_byte(v: u16) -> u8 {
    (v >> 8) as u8
}

pub open spec fn lo_byte(v: u16) -> u8 {
    (v & 0xFF) as u8
}

/// Big-endian 16-bit value of two bytes.
pub open spec fn be16(hi: u8, lo: u8) -> u16 {
    (hi as int * 256 + lo as int) as u16
}

pub open spec fn set_vcp_frame(code: u8, value: u16) -> Seq<u8> {
    with_checksum(seq![HOST_SRC, 0x80u8 | 4u8, OPCODE_SET_VCP, code, hi_byte(value), lo_byte(value)])
}

pub open spec fn get_vcp_frame(code: u8) -> Seq<u8> {
    with_checksum(seq![HOST_SRC, 0x80u8 | 2u8, OPCODE_GET_VCP, code])
}

pub open spec fn capabilities_request_frame(offset: u16) -> Seq<u8> {
    with_checksum(seq![HOST_SRC, 0x80u8 | 3u8, OPCODE_CAP_REQUEST, hi_byte(offset), lo_byte(offset)])
}

fn host_checksum(bytes: &[u8]) -> (x: u8)
    ensures
        x == xor_fold(0x6E, bytes@),
{
    let mut x: u8 = 0x6E;
    let mut i: usize = 0;
    while i < bytes.len()
        invariant
            i <= bytes.len(),
            x == xor_fold(0x6E, bytes@.take(i as int)),
        decreases bytes.len() - i,
    {
        assert(bytes@.take(i + 1).drop_last() =~= bytes@.take(i as int));
        x = x ^ bytes[i];
        i += 1;
    }
    assert(bytes@.take(bytes.len() as int) =~= bytes@);
    x
}

/// Build a DDC/CI Set-VCP frame for the given feature.
///
/// Layout: `[SRC, LEN | 0x80, OP, CODE, HI, LO, XOR]`. The returned bytes are
/// the raw DDC/CI payload that follows the I²C address byte; drivers prepend
/// the address themselves.
pub fn encode_set_vcp(code: u8, value: u16) -> (frame: [u8; 7])
    ensures
        frame@ == set_vcp_frame(code, value),
{
    let body: [u8; 6] = [
        HOST_SRC,
        0x80 | 4,
        OPCODE_SET_VCP,
        code,
        (value >> 8) as u8,
        (value & 0xFF) as u8,
    ];
    let chk = host_checksum(body.as_slice());
    let frame = [body[0], body[1], body[2], body[3], body[4], body[5], chk];
    assert(frame@ =~= body@.push(chk));
    frame
}

/// Build a DDC/CI Get-VCP request frame.
pub fn encode_get_vcp(code: u8) -> (frame: [u8; 5])
    ensures
        frame@ == get_vcp_frame(code),
{
    let body: [u8; 4] = [HOST_SRC, 0x80 | 2, OPCODE_GET_VCP, code];
    let chk = host_checksum(body.as_slice());
    let frame = [body[0], body[1], body[2], body[3], chk];
    assert(frame@ =~= body@.push(chk));
    frame
}

/// Build a DDC/CI Capabilities Request frame for the given offset.
pub fn encode_capabilities_request(offset: u16) -> (frame: [u8; 6])
    ensures
        frame@ == capabilities_request_frame(offset),
{
    let body: [u8; 5] = [
        HOST_SRC,
        0x80 | 3,
        OPCODE_CAP_REQUEST,
        (offset >> 8) as u8,
        (offset & 0xFF) as u8,
    ];
    let chk = host_checksum(body.as_slice());
    let frame = [body[0], body[1], body[2], body[3], body[4], chk];
    assert(frame@ =~= body@.push(chk));
    frame
}


/// Decoded Get-VCP reply.
#[derive(Debug, Clone, Copy, PartialEq, Eq)]
pub struct VcpReply {
    pub code: u8,
    pub vcp_type: VcpType,
    pub maximum: u16,
    pub current: u16,
}

#[derive(Debug, Clone, Copy, PartialEq, Eq)]
pub enum VcpType {
    SetParameter,
    Momentary,
    Other(u8),
}

pub open spec fn vcp_type_of(b: u8) -> VcpType {
    if b == 0x00 {
        VcpType::SetParameter
    } else if b == 0x01 {
        VcpType::Momentary
    } else {
        VcpType::Other(b)
    }
}

/// The length field of a reply (LEN byte without its 0x80 flag).
pub open spec fn reply_len(raw: Seq<u8>) -> int {
    (raw[1] & 0x7F) as int
}

pub open spec fn msg_reply_too_short(n: nat) -> Seq<char> {
    "reply too short: "@ + dec_digits(n) + " bytes"@
}

pub open spec fn msg_unexpected_source(b: u8) -> Seq<char> {
    "unexpected source byte: 0x"@ + hex2_upper(b)
}

pub open spec fn msg_len_too_small(n: nat) -> Seq<char> {
    "reply length too small: "@ + dec_digits(n)
}

pub open spec fn msg_unexpected_opcode(b: u8) -> Seq<char> {
    "unexpected opcode: 0x"@ + hex2_upper(b)
}

pub open spec fn msg_not_supported(b: u8) -> Seq<char> {
    "VCP not supported, result=0x"@ + hex2_upper(b)
}

/// Why a Get-VCP reply is rejected, checked in this order; `None` when it is accepted.
pub open spec fn get_vcp_reply_fault(raw: Seq<u8>) -> Option<Fault> {
    if raw.len() < 11 {
        Some(Fault::Protocol(msg_reply_too_short(raw.len())))
    } else if raw[0] != DISPLAY_SRC {
        Some(Fault::Protocol(msg_unexpected_source(raw[0])))
    } else if reply_len(raw) < 8 {
        Some(Fault::Protocol(msg_len_too_small(reply_len(raw) as nat)))
    } else if raw.len() < 2 + reply_len(raw) + 1 {
        Some(Fault::Protocol("truncated reply payload"@))
    } else if raw[2] != OPCODE_GET_VCP_REPLY {
        Some(Fault::Protocol(msg_unexpected_opcode(raw[2])))
    } else if raw[3] != 0 {
        Some(Fault::Protocol(msg_not_supported(raw[3])))
    } else if !checksum_ok(raw.take(2 + reply_len(raw) + 1)) {
        Some(Fault::Checksum)
    } else {
        None
    }
}

/// The reply that an accepted Get-VCP frame carries.
pub open spec fn decoded_vcp_reply(raw: Seq<u8>) -> VcpReply {
    VcpReply {
        code: raw[4],
        vcp_type: vcp_type_of(raw[5]),
        maximum: be16(raw[6], raw[7]),
        current: be16(raw[8], raw[9]),
    }
}

fn protocol_error(msg: String) -> (e: Error)
    ensures
        e matches Error::Protocol(s) && s@ == msg@,
{
    Error::Protocol(msg)
}

fn byte_message(prefix: &str, b: u8) -> (s: String)
    ensures
        s@ == prefix@ + hex2_upper(b),
{
    let mut s = prefix.to_owned();
    push_hex2_upper(&mut s, b);
    s
}

/// Decode a Get-VCP reply. The slice should contain exactly the bytes the
/// display put on the bus (starting with the source address 0x6E).
pub fn decode_get_vcp_reply(raw: &[u8]) -> (r: Result<VcpReply>)
    ensures
        match r {
            Ok(reply) => get_vcp_reply_fault(raw@) is None && reply == decoded_vcp_reply(raw@),
            Err(e) => get_vcp_reply_fault(raw@) matches Some(f) && error_is(e, f),
        },
{
    // Standard reply: [DISPLAY_SRC, LEN|0x80, 0x02, RESULT, CODE, TYPE, MAX_HI, MAX_LO, CUR_HI, CUR_LO, CHK]
    if raw.len() < 11 {
        let mut s = "reply too short: ".to_owned();
        push_decimal(&mut s, raw.len() as u64);
        s.append(" bytes");
        return Err(protocol_error(s));
    }
    if raw[0] != DISPLAY_SRC {
        return Err(protocol_error(byte_message("unexpected source byte: 0x", raw[0])));
    }
    let len = (raw[1] & 0x7F) as usize;
    if len < 8 {
        let mut s = "reply length too small: ".to_owned();
        push_decimal(&mut s, len as u64);
        return Err(protocol_error(s));
    }
    if raw.len() < 2 + len + 1 {
        return Err(protocol_error("truncated reply payload".to_owned()));
    }
    if raw[2] != OPCODE_GET_VCP_REPLY {
        return Err(protocol_error(byte_message("unexpected opcode: 0x", raw[2])));
    }
    if raw[3] != 0 {
        return Err(protocol_error(byte_message("VCP not supported, result=0x", raw[3])));
    }
    if !verify_reply_checksum(&raw[0..2 + len + 1]) {
        return Err(Error::Checksum);
    }
    let code = raw[4];
    let vcp_type = match raw[5] {
        0x00 => VcpType::SetParameter,
        0x01 => VcpType::Momentary,
        other => VcpType::Other(other),
    };
    let maximum = (raw[6] as u16) * 256 + raw[7] as u16;
    let current = (raw[8] as u16) * 256 + raw[9] as u16;
    Ok(VcpReply { code, vcp_type, maximum, current })
}

/// Decoded Capability fragment reply.
#[derive(Debug, Clone)]
pub struct CapabilityFragment {
    pub offset: u16,
    pub data: Vec<u8>,
}

/// Why a Capabilities reply is rejected, checked in this order; `None` when it is accepted.
pub open spec fn capabilities_reply_fault(raw: Seq<u8>) -> Option<Fault> {
    if raw.len() < 6 {
        Some(Fault::Protocol("cap reply too short"@))
    } else if raw[0] != DISPLAY_SRC {
        Some(Fault::Protocol("cap reply bad source"@))
    } else if raw.len() < 2 + reply_len(raw) + 1 {
        Some(Fault::Protocol("cap reply truncated"@))
    } else if raw[2] != OPCODE_CAP_REPLY {
        Some(Fault::Protocol("cap reply bad opcode"@))
    } else if !checksum_ok(raw.take(2 + reply_len(raw) + 1)) {
        Some(Fault::Checksum)
    } else {
        None
    }
}

/// An accepted Capabilities reply whose length field is below the three
/// header bytes (opcode and offset): the payload range would run backwards.
pub open spec fn capabilities_reply_malformed(raw: Seq<u8>) -> bool {
    capabilities_reply_fault(raw) is None && reply_len(raw) < 3
}

/// Decode a Capabilities reply fragment:
/// `[DISPLAY_SRC, LEN|0x80, 0xE3, OFF_HI, OFF_LO, ...DATA, CHK]`.
pub fn decode_capabilities_reply(raw: &[u8]) -> (r: Result<CapabilityFragment>)
    requires
        !capabilities_reply_malformed(raw@),
    ensures
        match r {
            Ok(frag) => {
                &&& capabilities_reply_fault(raw@) is None
                &&& frag.offset == be16(raw@[3], raw@[4])
                &&& frag.data@ == raw@.subrange(5, 2 + reply_len(raw@))
            },
            Err(e) => capabilities_reply_fault(raw@) matches Some(f) && error_is(e, f),
        },
{
    if raw.len() < 6 {
        return Err(protocol_error("cap reply too short".to_owned()));
    }
    if raw[0] != DISPLAY_SRC {
        return Err(protocol_error("cap reply bad source".to_owned()));
    }
    let len = (raw[1] & 0x7F) as usize;
    if raw.len() < 2 + len + 1 {
        return Err(protocol_error("cap reply truncated".to_owned()));
    }
    if raw[2] != OPCODE_CAP_REPLY {
        return Err(protocol_error("cap reply bad opcode".to_owned()));
    }
    if !verify_reply_checksum(&raw[0..2 + len + 1]) {
        return Err(Error::Checksum);
    }
    let offset = (raw[3] as u16) * 256 + raw[4] as u16;
    // payload is bytes 5..(2+len)
    let data = slice_to_vec(&raw[5..2 + len]);
    Ok(CapabilityFragment { offset, data })
}

/// Verify the display→host checksum across `bytes` (the trailing byte must be
/// the supplied checksum).
fn verify_reply_checksum(bytes: &[u8]) -> (ok: bool)
    ensures
        ok == checksum_ok(bytes@),
{
    if bytes.len() == 0 {
        return false;
    }
    let n = bytes.len() - 1;
    let mut x: u8 = REPLY_XOR_SEED;
    let mut i: usize = 0;
    while i < n
        invariant
            n == bytes.len() - 1,
            i <= n,
            x == xor_fold(REPLY_XOR_SEED, bytes@.take(i as int)),
        decreases n - i,
    {
        assert(bytes@.take(i + 1).drop_last() =~= bytes@.take(i as int));
        x = x ^ bytes[i];
        i += 1;
    }
    assert(bytes@.take(n as int) =~= bytes@.drop_last());
    x == bytes[n]
}

/// Compute the checksum byte the display puts at the end of a reply (used by
/// tests and by drivers that need to forge frames for unit tests).
pub fn reply_checksum(bytes: &[u8]) -> (x: u8)
    ensures
        x == xor_fold(REPLY_XOR_SEED, bytes@),
{
    let mut x: u8 = REPLY_XOR_SEED;
    let mut i: usize = 0;
    while i < bytes.len()
        invariant
            i <= bytes.len(),
            x == xor_fold(REPLY_XOR_SEED, bytes@.take(i as int)),
        decreases bytes.len() - i,
    {
        assert(bytes@.take(i + 1).drop_last() =~= bytes@.take(i as int));
        x = x ^ bytes[i];
        i += 1;
    }
    assert(bytes@.take(bytes.len() as int) =~= bytes@);
    x
}

} // verus!

verus! {

/// A Get-VCP reply frame as a display sends it.
pub open spec fn vcp_reply_frame(code: u8, vcp_type: u8, maximum: u16, current: u16) -> Seq<u8> {
    with_checksum(
        seq![
            DISPLAY_SRC,
            0x88u8,
            OPCODE_GET_VCP_REPLY,
            0u8,
            code,
            vcp_type,
            hi_byte(maximum),
            lo_byte(maximum),
            hi_byte(current),
            lo_byte(current),
        ],
    )
}

/// A Capabilities reply frame carrying `data` at `offset`.
pub open spec fn capabilities_reply_frame(offset: u16, data: Seq<u8>) -> Seq<u8> {
    with_checksum(
        seq![DISPLAY_SRC, (0x80 + 3 + data.len()) as u8, OPCODE_CAP_REPLY, hi_byte(offset), lo_byte(offset)]
            + data,
    )
}

proof fn lemma_xor_fold_push(seed: u8, p: Seq<u8>, b: u8)
    ensures
        xor_fold(seed, p.push(b)) == xor_fold(seed, p) ^ b,
{
    assert(p.push(b).drop_last() =~= p);
}

proof fn lemma_with_checksum(p: Seq<u8>)
    ensures
        xor_fold(0x6E, with_checksum(p)) == 0,
        checksum_ok(with_checksum(p)),
        with_checksum(p).len() == p.len() + 1,
{
    let x = xor_fold(0x6E, p);
    lemma_xor_fold_push(0x6E, p, x);
    assert(x ^ x == 0) by (bit_vector);
    assert(with_checksum(p).drop_last() =~= p);
}

proof fn lemma_be16_split(v: u16)
    ensures
        be16(hi_byte(v), lo_byte(v)) == v,
{
    assert(((v >> 8) as u8) as int * 256 + ((v & 0xFF) as u8) as int == v as int) by (bit_vector);
}

/// Every frame the host encodes is self-checking: XOR-ing all of its bytes,
/// checksum included, into the seed 0x6E gives zero.
pub proof fn host_frames_self_check(code: u8, value: u16, offset: u16)
    ensures
        xor_fold(0x6E, set_vcp_frame(code, value)) == 0,
        xor_fold(0x6E, get_vcp_frame(code)) == 0,
        xor_fold(0x6E, capabilities_request_frame(offset)) == 0,
{
    lemma_with_checksum(seq![HOST_SRC, 0x80u8 | 4u8, OPCODE_SET_VCP, code, hi_byte(value), lo_byte(value)]);
    lemma_with_checksum(seq![HOST_SRC, 0x80u8 | 2u8, OPCODE_GET_VCP, code]);
    lemma_with_checksum(seq![HOST_SRC, 0x80u8 | 3u8, OPCODE_CAP_REQUEST, hi_byte(offset), lo_byte(offset)]);
}

/// A well-formed Get-VCP reply decodes to the code, type, maximum and current
/// value that it was built from.
pub proof fn vcp_reply_roundtrip(code: u8, vcp_type: u8, maximum: u16, current: u16)
    ensures
        get_vcp_reply_fault(vcp_reply_frame(code, vcp_type, maximum, current)) is None,
        decoded_vcp_reply(vcp_reply_frame(code, vcp_type, maximum, current)) == (VcpReply {
            code,
            vcp_type: vcp_type_of(vcp_type),
            maximum,
            current,
        }),
{
    let p = seq![
        DISPLAY_SRC,
        0x88u8,
        OPCODE_GET_VCP_REPLY,
        0u8,
        code,
        vcp_type,
        hi_byte(maximum),
        lo_byte(maximum),
        hi_byte(current),
        lo_byte(current),
    ];
    let f = vcp_reply_frame(code, vcp_type, maximum, current);
    lemma_with_checksum(p);
    assert(0x88u8 & 0x7Fu8 == 8u8) by (bit_vector);
    assert(reply_len(f) == 8);
    assert(f.take(11) =~= f);
    lemma_be16_split(maximum);
    lemma_be16_split(current);
}

/// A Get-VCP reply whose checksum byte is replaced by any other value is
/// rejected with `Error::Checksum`.
pub proof fn vcp_reply_bad_checksum_rejected(code: u8, vcp_type: u8, maximum: u16, current: u16, chk: u8)
    requires
        chk != vcp_reply_frame(code, vcp_type, maximum, current)[10],
    ensures
        get_vcp_reply_fault(vcp_reply_frame(code, vcp_type, maximum, current).update(10, chk))
            == Some(Fault::Checksum),
{
    let f = vcp_reply_frame(code, vcp_type, maximum, current);
    let g = f.update(10, chk);
    vcp_reply_roundtrip(code, vcp_type, maximum, current);
    assert(0x88u8 & 0x7Fu8 == 8u8) by (bit_vector);
    assert(g.take(11) =~= g);
    assert(g.drop_last() =~= f.drop_last());
    assert(f.take(11) =~= f);
}

/// A well-formed Capabilities reply (at most 124 data bytes, the most that
/// the 7-bit length field can announce) decodes to its offset and data.
pub proof fn capabilities_reply_roundtrip(offset: u16, data: Seq<u8>)
    requires
        data.len() <= 124,
    ensures
        capabilities_reply_fault(capabilities_reply_frame(offset, data)) is None,
        !capabilities_reply_malformed(capabilities_reply_frame(offset, data)),
        be16(capabilities_reply_frame(offset, data)[3], capabilities_reply_frame(offset, data)[4])
            == offset,
        capabilities_reply_frame(offset, data).subrange(
            5,
            2 + reply_len(capabilities_reply_frame(offset, data)),
        ) == data,
{
    let n = data.len();
    let lenb = (0x80 + 3 + n) as u8;
    let p = seq![DISPLAY_SRC, lenb, OPCODE_CAP_REPLY, hi_byte(offset), lo_byte(offset)] + data;
    let f = capabilities_reply_frame(offset, data);
    lemma_with_checksum(p);
    let n8 = n as u8;
    assert(n8 <= 124 ==> ((0x80u8 + 3u8 + n8) as u8) & 0x7Fu8 == 3u8 + n8) by (bit_vector);
    assert(lenb == (0x80u8 + 3u8 + n8) as u8);
    assert(reply_len(f) == 3 + n);
    assert(f.take(f.len() as int) =~= f);
    assert(f.len() == 6 + n);
    lemma_be16_split(offset);
    assert(f.subrange(5, 5 + n as int) =~= data);
}

/// The request frames carry their fields unchanged at fixed places: a
/// Set-VCP frame is `51 84 03 <code> <value, big-endian> <checksum>`, a
/// Get-VCP frame `51 82 01 <code> <checksum>` and a Capabilities Request
/// `51 83 F3 <offset, big-endian> <checksum>`, the checksum being 0x6E
/// XOR-ed with every byte before it.
pub proof fn request_frames_layout(code: u8, value: u16, offset: u16)
    ensures
        ({
            let f = set_vcp_frame(code, value);
            &&& f.len() == 7
            &&& f[0] == 0x51 && f[1] == 0x84 && f[2] == 0x03
            &&& f[3] == code
            &&& f[4] as int * 256 + f[5] as int == value as int
            &&& f[6] == 0x6Eu8 ^ f[0] ^ f[1] ^ f[2] ^ f[3] ^ f[4] ^ f[5]
        }),
        ({
            let f = get_vcp_frame(code);
            &&& f.len() == 5
            &&& f[0] == 0x51 && f[1] == 0x82 && f[2] == 0x01
            &&& f[3] == code
            &&& f[4] == 0x6Eu8 ^ f[0] ^ f[1] ^ f[2] ^ f[3]
        }),
        ({
            let f = capabilities_request_frame(offset);
            &&& f.len() == 6
            &&& f[0] == 0x51 && f[1] == 0x83 && f[2] == 0xF3
            &&& f[3] as int * 256 + f[4] as int == offset as int
            &&& f[5] == 0x6Eu8 ^ f[0] ^ f[1] ^ f[2] ^ f[3] ^ f[4]
        }),
{
    let p = seq![HOST_SRC, 0x80u8 | 4u8, OPCODE_SET_VCP, code, hi_byte(value), lo_byte(value)];
    reveal_with_fuel(xor_fold, 7);
    assert(0x80u8 | 4u8 == 0x84u8) by (bit_vector);
    assert(0x80u8 | 2u8 == 0x82u8) by (bit_vector);
    assert(0x80u8 | 3u8 == 0x83u8) by (bit_vector);
    assert(((value >> 8) as u8) as int * 256 + ((value & 0xFF) as u8) as int == value as int) by (bit_vector);
    assert(((offset >> 8) as u8) as int * 256 + ((offset & 0xFF) as u8) as int == offset as int) by (bit_vector);
    assert(p.drop_last().drop_last().drop_last().drop_last().drop_last().drop_last() =~= Seq::<u8>::empty());
    let g = seq![HOST_SRC, 0x80u8 | 2u8, OPCODE_GET_VCP, code];
    assert(g.drop_last().drop_last().drop_last().drop_last() =~= Seq::<u8>::empty());
    let c = seq![HOST_SRC, 0x80u8 | 3u8, OPCODE_CAP_REQUEST, hi_byte(offset), lo_byte(offset)];
    assert(c.drop_last().drop_last().drop_last().drop_last().drop_last() =~= Seq::<u8>::empty());
}

} // verus!
