//! Minimal EDID 1.x parser — just enough to extract manufacturer code and
//! model / monitor friendly name. Used to upgrade the boring "Generic PnP
//! Monitor" string returned by Windows' PHYSICAL_MONITOR API into the actual
//! monitor model the user sees in vendor utilities.

use vstd::prelude::*;

use crate::text::{chars_from, push_char, string_from, trim_bounds, trimmed};

verus! {

/// Decoded EDID fields useful to the application.
#[derive(Debug, Clone, Default, PartialEq, Eq)]
pub struct Edid {
    /// 3-letter PNP manufacturer code (e.g. "DEL" for Dell, "GSM" for LG).
    pub manufacturer: String,
    /// Model name from descriptor block 0xFC if present, else empty.
    pub model_name: String,
    /// Serial-number string from descriptor block 0xFF if present.
    pub serial_string: String,
    /// 16-bit product code, little-endian.
    pub product_code: u16,
    /// Manufacture year (1990 + offset).
    pub year_of_manufacture: u16,
}

pub struct EdidView {
    pub manufacturer: Seq<char>,
    pub model_name: Seq<char>,
    pub serial_string: Seq<char>,
    pub product_code: u16,
    pub year_of_manufacture: u16,
}

impl View for Edid {
    type V = EdidView;

    open spec fn view(&self) -> EdidView {
        EdidView {
            manufacturer: self.manufacturer@,
            model_name: self.model_name@,
            serial_string: self.serial_string@,
            product_code: self.product_code,
            year_of_manufacture: self.year_of_manufacture,
        }
    }
}

/// The fixed 8-byte EDID header.
pub open spec fn edid_header() -> Seq<u8> {
    seq![0x00u8, 0xFFu8, 0xFFu8, 0xFFu8, 0xFFu8, 0xFFu8, 0xFFu8, 0x00u8]
}

/// A block that [`parse`] accepts: at least 128 bytes, starting with the header.
pub open spec fn edid_accepted(b: Seq<u8>) -> bool {
    b.len() >= 128 && b.take(8) == edid_header()
}

/// The big-endian manufacturer word at bytes 8..10.
pub open spec fn mfg_word(b: Seq<u8>) -> int {
    b[8] as int * 256 + b[9] as int
}

/// The three 5-bit letters of the manufacturer word (1 = 'A' .. 26 = 'Z').
pub open spec fn mfg_letters(b: Seq<u8>) -> (int, int, int) {
    ((mfg_word(b) / 1024) % 32, (mfg_word(b) / 32) % 32, mfg_word(b) % 32)
}

pub open spec fn letter(c: int) -> char {
    ('A' as int + c - 1) as char
}

pub open spec fn manufacturer_of(b: Seq<u8>) -> Seq<char> {
    let (c1, c2, c3) = mfg_letters(b);
    if 1 <= c1 <= 26 && 1 <= c2 <= 26 && 1 <= c3 <= 26 {
        seq![letter(c1), letter(c2), letter(c3)]
    } else {
        Seq::empty()
    }
}

/// The manufacturer decoded from an accepted block is either empty or a
/// three-letter PNP code of capital letters.
pub proof fn manufacturer_is_pnp_code(b: Seq<u8>)
    requires
        edid_accepted(b),
    ensures
        manufacturer_of(b).len() == 0 || (manufacturer_of(b).len() == 3 && forall|i: int|
            0 <= i < 3 ==> 'A' <= #[trigger] manufacturer_of(b)[i] <= 'Z'),
{
}

/// The manufacturer field holds three capital letters packed five bits each
/// (`A` = 1 .. `Z` = 26), first letter in the high bits: a block carrying the
/// packing of `l1 l2 l3` in bytes 8..10 decodes back to exactly `l1 l2 l3`.
pub proof fn manufacturer_unpacks_letters(b: Seq<u8>, l1: char, l2: char, l3: char)
    requires
        edid_accepted(b),
        'A' <= l1 <= 'Z',
        'A' <= l2 <= 'Z',
        'A' <= l3 <= 'Z',
        b[8] as int * 256 + b[9] as int == (l1 as int - 'A' as int + 1) * 1024 + (l2 as int - 'A' as int
            + 1) * 32 + (l3 as int - 'A' as int + 1),
    ensures
        manufacturer_of(b) == seq![l1, l2, l3],
{
    let a1 = l1 as int - 'A' as int + 1;
    let a2 = l2 as int - 'A' as int + 1;
    let a3 = l3 as int - 'A' as int + 1;
    let w = mfg_word(b);
    assert(w == a1 * 1024 + a2 * 32 + a3);
    assert(w / 1024 == a1);
    assert(w / 32 == a1 * 32 + a2);
    assert((w / 1024) % 32 == a1);
    assert((w / 32) % 32 == a2);
    assert(w % 32 == a3);
    assert(letter(a1) == l1);
    assert(letter(a2) == l2);
    assert(letter(a3) == l3);
    assert(manufacturer_of(b) =~= seq![l1, l2, l3]);
}

/// Printable ASCII (`u8::is_ascii_graphic`) or space.
pub open spec fn kept_byte(x: u8) -> bool {
    (0x21 <= x && x <= 0x7E) || x == 0x20
}

/// The kept characters of `p` from `i` up to the first LF or NUL.
pub open spec fn kept_text(p: Seq<u8>, i: int) -> Seq<char>
    decreases p.len() - i,
{
    if i < 0 || i >= p.len() || p[i] == 0x0A || p[i] == 0x00 {
        Seq::empty()
    } else if kept_byte(p[i]) {
        seq![p[i] as char] + kept_text(p, i + 1)
    } else {
        kept_text(p, i + 1)
    }
}

/// The text of a descriptor payload: printable characters up to the first
/// LF or NUL, without surrounding spaces.
pub open spec fn descriptor_text(p: Seq<u8>) -> Seq<char> {
    trimmed(kept_text(p, 0))
}

/// Whether the 18-byte block at `off` is a monitor descriptor of type `ty`.
pub open spec fn is_descriptor(b: Seq<u8>, off: int, ty: u8) -> bool {
    b[off] == 0 && b[off + 1] == 0 && b[off + 2] == 0 && b[off + 4] == 0 && b[off + 3] == ty
}

/// The text of the last descriptor of type `ty` among the four blocks at
/// 54, 72, 90 and 108; empty when there is none.
pub open spec fn descriptor_string(b: Seq<u8>, ty: u8) -> Seq<char> {
    if is_descriptor(b, 108, ty) {
        descriptor_text(b.subrange(113, 126))
    } else if is_descriptor(b, 90, ty) {
        descriptor_text(b.subrange(95, 108))
    } else if is_descriptor(b, 72, ty) {
        descriptor_text(b.subrange(77, 90))
    } else if is_descriptor(b, 54, ty) {
        descriptor_text(b.subrange(59, 72))
    } else {
        Seq::empty()
    }
}

/// The fields [`parse`] decodes from an accepted block.
pub open spec fn edid_of(b: Seq<u8>) -> EdidView {
    EdidView {
        manufacturer: manufacturer_of(b),
        model_name: descriptor_string(b, 0xFC),
        serial_string: descriptor_string(b, 0xFF),
        product_code: (b[10] as int + b[11] as int * 256) as u16,
        year_of_manufacture: (1990 + b[17] as int) as u16,
    }
}

fn letter_char(c: u8) -> (ch: char)
    requires
        1 <= c <= 26,
    ensures
        ch == letter(c as int),
{
    (64u8 + c) as char
}

fn ascii_until_terminator(payload: &[u8]) -> (s: String)
    ensures
        s@ == descriptor_text(payload@),
{
    // EDID descriptor strings are terminated by 0x0A (LF) and padded with
    // 0x20. We stop at the first LF or NUL.
    let mut kept: Vec<char> = Vec::new();
    let mut i: usize = 0;
    while i < payload.len()
        invariant
            i <= payload@.len(),
            kept@ + kept_text(payload@, i as int) == kept_text(payload@, 0),
        ensures
            kept@ + kept_text(payload@, i as int) == kept_text(payload@, 0),
            i >= payload@.len() || payload@[i as int] == 0x0A || payload@[i as int] == 0x00,
        decreases payload@.len() - i,
    {
        let b = payload[i];
        if b == 0x0A || b == 0x00 {
            break;
        }
        if (0x21 <= b && b <= 0x7E) || b == 0x20 {
            let ghost before = kept@;
            kept.push(b as char);
            assert(kept@ + kept_text(payload@, i + 1) =~= before + kept_text(payload@, i as int));
        }
        i += 1;
    }
    assert(kept_text(payload@, i as int) =~= Seq::<char>::empty());
    assert(kept@ =~= kept_text(payload@, 0));
    let (lo, hi) = trim_bounds(kept.as_slice());
    string_from(kept.as_slice(), lo, hi)
}

fn descriptor_at(bytes: &[u8], offset: usize, current: (String, String)) -> (r: (String, String))
    requires
        offset + 18 <= bytes@.len(),
    ensures
        r.0@ == (if is_descriptor(bytes@, offset as int, 0xFC) {
            descriptor_text(bytes@.subrange(offset + 5, offset + 18))
        } else {
            current.0@
        }),
        r.1@ == (if is_descriptor(bytes@, offset as int, 0xFF) {
            descriptor_text(bytes@.subrange(offset + 5, offset + 18))
        } else {
            current.1@
        }),
{
    let (mut model, mut serial) = current;
    // A "monitor descriptor" has bytes 0..4 = 00 00 00 <type>; the next
    // byte is 0; the trailing 13 bytes are the payload.
    if bytes[offset] == 0 && bytes[offset + 1] == 0 && bytes[offset + 2] == 0 && bytes[offset + 4]
        == 0 {
        let descriptor_type = bytes[offset + 3];
        let payload = &bytes[offset + 5..offset + 18];
        let s = ascii_until_terminator(payload);
        if descriptor_type == 0xFC {
            model = s;
        } else if descriptor_type == 0xFF {
            serial = s;
        }
    }
    (model, serial)
}

/// Parse an EDID 1.x block. Returns `None` if the header is wrong.
pub fn parse(bytes: &[u8]) -> (r: Option<Edid>)
    ensures
        r is Some <==> edid_accepted(bytes@),
        r matches Some(e) ==> e@ == edid_of(bytes@),
{
    if bytes.len() < 128 {
        return None;
    }
    // Required header.
    let header: [u8; 8] = [0x00, 0xFF, 0xFF, 0xFF, 0xFF, 0xFF, 0xFF, 0x00];
    let mut h: usize = 0;
    while h < 8
        invariant
            h <= 8,
            bytes@.len() >= 128,
            header@ == edid_header(),
            forall|k: int| 0 <= k < h ==> bytes@[k] == header@[k],
        decreases 8 - h,
    {
        if bytes[h] != header[h] {
            assert(bytes@.take(8)[h as int] != edid_header()[h as int]);
            return None;
        }
        h += 1;
    }
    assert(bytes@.take(8) =~= edid_header());

    // Manufacturer ID: bytes 8..10, big-endian, packed 5-bit chars (1='A'..26='Z').
    let mfg_word: u16 = (bytes[8] as u16) * 256 + bytes[9] as u16;
    let c1 = ((mfg_word >> 10) & 0x1F) as u8;
    let c2 = ((mfg_word >> 5) & 0x1F) as u8;
    let c3 = (mfg_word & 0x1F) as u8;
    assert(((mfg_word >> 10) & 0x1F) as int == (mfg_word as int / 1024) % 32) by (bit_vector);
    assert(((mfg_word >> 5) & 0x1F) as int == (mfg_word as int / 32) % 32) by (bit_vector);
    assert((mfg_word & 0x1F) as int == mfg_word as int % 32) by (bit_vector);
    let mut manufacturer = String::new();
    if 1 <= c1 && c1 <= 26 && 1 <= c2 && c2 <= 26 && 1 <= c3 && c3 <= 26 {
        push_char(&mut manufacturer, letter_char(c1));
        push_char(&mut manufacturer, letter_char(c2));
        push_char(&mut manufacturer, letter_char(c3));
    }
    assert(manufacturer@ =~= manufacturer_of(bytes@));

    let product_code = bytes[10] as u16 + (bytes[11] as u16) * 256;
    let year_of_manufacture = 1990 + bytes[17] as u16;

    // Four 18-byte descriptor blocks at offsets 54, 72, 90, 108.
    let names = (String::new(), String::new());
    let names = descriptor_at(bytes, 54, names);
    let names = descriptor_at(bytes, 72, names);
    let names = descriptor_at(bytes, 90, names);
    let names = descriptor_at(bytes, 108, names);
    let (model_name, serial_string) = names;
    Some(Edid { manufacturer, model_name, serial_string, product_code, year_of_manufacture })
}

} // verus!
