//! The command-line front end's own rules: how a VCP code is written on the
//! command line, which monitors a command acts on, and how sysfs numbers read.

use vstd::prelude::*;

use crate::number::{int_error_text, parse_uint, parse_uint_chars, IntError};
use crate::monitor::{kind_text, MonitorKind};
use crate::text::{chars_from, chars_of, dec_digits, hex2_upper, push_decimal, push_hex2_upper, trim_bounds, trimmed};

verus! {

/// A VCP code given on the command line: `0x10`, `0X10`, `16` or `10`
/// (a run that is not all decimal digits is read as hex).
#[derive(Debug, Clone)]
pub struct HexU8(pub u8);

pub open spec fn all_decimal(t: Seq<char>) -> bool {
    forall|k: int| 0 <= k < t.len() ==> '0' <= #[trigger] t[k] && t[k] <= '9'
}

/// What a VCP code argument means.
pub open spec fn vcp_code_value(s: Seq<char>) -> Result<nat, IntError> {
    let t = trimmed(s);
    if "0x"@.is_prefix_of(t) || "0X"@.is_prefix_of(t) {
        parse_uint(t.skip(2), 16, 255)
    } else if all_decimal(t) {
        parse_uint(t, 10, 255)
    } else {
        parse_uint(t, 16, 255)
    }
}

impl HexU8 {
    /// Read a VCP code argument; the error reads `bad VCP code: <reason>`.
    #[verifier::loop_isolation(false)]
    pub fn parse(s: &str) -> (r: Result<HexU8, String>)
        ensures
            match vcp_code_value(s@) {
                Ok(v) => r matches Ok(h) && h.0 == v,
                Err(e) => r matches Err(m) && m@ == "bad VCP code: "@ + int_error_text(e),
            },
    {
        let all = chars_of(s);
        let (lo, hi) = trim_bounds(all.as_slice());
        let t = chars_from(all.as_slice(), lo, hi);
        assert(t@ =~= trimmed(s@));
        proof {
            reveal_strlit("0x");
            reveal_strlit("0X");
        }
        let parsed = if t.len() >= 2 && t[0] == '0' && (t[1] == 'x' || t[1] == 'X') {
            assert("0x"@.is_prefix_of(t@) || "0X"@.is_prefix_of(t@));
            let h = chars_from(t.as_slice(), 2, t.len());
            assert(h@ =~= t@.skip(2));
            parse_uint_chars(h.as_slice(), 16, 255)
        } else {
            assert(!("0x"@.is_prefix_of(t@) || "0X"@.is_prefix_of(t@))) by {
                if "0x"@.is_prefix_of(t@) {
                    assert(t@[0] == "0x"@[0]);
                    assert(t@[1] == "0x"@[1]);
                }
                if "0X"@.is_prefix_of(t@) {
                    assert(t@[0] == "0X"@[0]);
                    assert(t@[1] == "0X"@[1]);
                }
            }
            let mut k: usize = 0;
            let mut digits = true;
            while k < t.len()
                invariant
                    k <= t@.len(),
                    digits == (forall|m: int| 0 <= m < k ==> '0' <= #[trigger] t@[m] && t@[m] <= '9'),
                decreases t@.len() - k,
            {
                if !('0' <= t[k] && t[k] <= '9') {
                    digits = false;
                }
                k += 1;
            }
            assert(digits == all_decimal(t@));
            if digits {
                parse_uint_chars(t.as_slice(), 10, 255)
            } else {
                parse_uint_chars(t.as_slice(), 16, 255)
            }
        };
        match parsed {
            Ok(v) => Ok(HexU8(v as u8)),
            Err(e) => {
                let mut m = "bad VCP code: ".to_owned();
                m.append(e.message());
                Err(m)
            },
        }
    }
}

impl std::str::FromStr for HexU8 {
    type Err = String;

    fn from_str(s: &str) -> (r: Result<Self, Self::Err>)
        ensures
            match vcp_code_value(s@) {
                Ok(v) => r matches Ok(h) && h.0 == v,
                Err(e) => r matches Err(m) && m@ == "bad VCP code: "@ + int_error_text(e),
            },
    {
        HexU8::parse(s)
    }
}

/// The number a sysfs attribute file holds (`contents.trim().parse::<u32>()`).
pub fn parse_sysfs_u32(contents: &str) -> (r: Result<u32, IntError>)
    ensures
        match parse_uint(trimmed(contents@), 10, 0xFFFF_FFFF) {
            Ok(v) => r == Ok::<u32, IntError>(v as u32),
            Err(e) => r == Err::<u32, IntError>(e),
        },
{
    let all = chars_of(contents);
    let (lo, hi) = trim_bounds(all.as_slice());
    let t = chars_from(all.as_slice(), lo, hi);
    parse_uint_chars(t.as_slice(), 10, 0xFFFF_FFFF)
}

/// The positions of the monitors a command acts on: the one whose id is
/// `id` (the first such), or all of them when no id is given. The error
/// reads `no monitor with id <id>`.
#[verifier::loop_isolation(false)]
pub fn select(ids: &Vec<String>, id: Option<&str>) -> (r: Result<Vec<usize>, String>)
    ensures
        id is None ==> (r matches Ok(v) && v@ == Seq::new(ids@.len(), |k: int| k as usize)),
        id matches Some(want) ==> match r {
            Ok(v) => v@.len() == 1 && v@[0] < ids@.len() && ids@[v@[0] as int]@ == want@
                && forall|k: int| 0 <= k < v@[0] ==> ids@[k]@ != want@,
            Err(m) => m@ == "no monitor with id "@ + want@ && forall|k: int|
                0 <= k < ids@.len() ==> ids@[k]@ != want@,
        },
{
    match id {
        Some(want) => {
            let w = want.to_owned();
            let mut k: usize = 0;
            while k < ids.len()
                invariant
                    k <= ids@.len(),
                    w@ == want@,
                    forall|j: int| 0 <= j < k ==> ids@[j]@ != want@,
                decreases ids@.len() - k,
            {
                if ids[k] == w {
                    let mut v: Vec<usize> = Vec::new();
                    v.push(k);
                    assert(v@ =~= seq![k]);
                    assert(ids@[k as int]@ == want@);
                    return Ok(v);
                }
                k += 1;
            }
            let mut m = "no monitor with id ".to_owned();
            m.append(want);
            Err(m)
        },
        None => {
            let mut v: Vec<usize> = Vec::new();
            let mut k: usize = 0;
            while k < ids.len()
                invariant
                    k <= ids@.len(),
                    v@ == Seq::new(k as nat, |j: int| j as usize),
                decreases ids@.len() - k,
            {
                v.push(k);
                k += 1;
                assert(v@ =~= Seq::new(k as nat, |j: int| j as usize));
            }
            Ok(v)
        },
    }
}

/// `id<TAB>name<TAB>` — the start of every human-readable output line.
pub open spec fn row_head(id: Seq<char>, name: Seq<char>) -> Seq<char> {
    id + "\t"@ + name + "\t"@
}

fn push_row_head(out: &mut String, id: &str, name: &str)
    ensures
        final(out)@ == old(out)@ + row_head(id@, name@),
{
    out.append(id);
    out.append("\t");
    out.append(name);
    out.append("\t");
    proof {
        reveal_strlit("\t");
    }
    assert(final(out)@ =~= old(out)@ + row_head(id@, name@));
}

/// The `list` line of a monitor: `id<TAB>name<TAB>[kind]`.
pub open spec fn list_line_text(id: Seq<char>, name: Seq<char>, kind: MonitorKind) -> Seq<char> {
    row_head(id, name) + "["@ + kind_text(kind) + "]"@
}

pub fn list_line(id: &str, name: &str, kind: MonitorKind) -> (line: String)
    ensures
        line@ == list_line_text(id@, name@, kind),
{
    let mut out = String::new();
    push_row_head(&mut out, id, name);
    out.append("[");
    let k = kind.to_string();
    out.append(k.as_str());
    out.append("]");
    proof {
        reveal_strlit("[");
        reveal_strlit("]");
    }
    assert(out@ =~= list_line_text(id@, name@, kind));
    out
}

/// The `get-vcp` line of a monitor: `id<TAB>name<TAB>VCP 0xCC<TAB>current/maximum`,
/// or `... VCP 0xCC<TAB>ERROR: message` when the read failed.
pub open spec fn vcp_get_line_text(id: Seq<char>, name: Seq<char>, code: u8, reading: Result<(u16, u16), Seq<char>>) -> Seq<char> {
    row_head(id, name) + "VCP 0x"@ + hex2_upper(code) + "\t"@ + match reading {
        Ok(v) => dec_digits(v.0 as nat) + "/"@ + dec_digits(v.1 as nat),
        Err(e) => "ERROR: "@ + e,
    }
}

/// `current/maximum` of a reading that was made, as `(current, maximum)`.
pub open spec fn reading_view(r: Result<(u16, u16), String>) -> Result<(u16, u16), Seq<char>> {
    match r {
        Ok(v) => Ok(v),
        Err(e) => Err(e@),
    }
}

pub fn vcp_get_line(id: &str, name: &str, code: u8, reading: &Result<(u16, u16), String>) -> (line: String)
    ensures
        line@ == vcp_get_line_text(id@, name@, code, reading_view(*reading)),
{
    let mut out = String::new();
    push_row_head(&mut out, id, name);
    out.append("VCP 0x");
    push_hex2_upper(&mut out, code);
    out.append("\t");
    proof {
        reveal_strlit("VCP 0x");
        reveal_strlit("\t");
        reveal_strlit("/");
        reveal_strlit("ERROR: ");
    }
    match reading {
        Ok(v) => {
            push_decimal(&mut out, v.0 as u64);
            out.append("/");
            push_decimal(&mut out, v.1 as u64);
        },
        Err(e) => {
            out.append("ERROR: ");
            out.append(e.as_str());
        },
    }
    assert(out@ =~= vcp_get_line_text(id@, name@, code, reading_view(*reading)));
    out
}

/// The `set-vcp` line of a monitor: `id<TAB>name<TAB>SET 0xCC=value<TAB>now current/maximum`
/// (0 for a value that could not be read back), or
/// `id<TAB>name<TAB>SET 0xCC<TAB>ERROR: message` when the write failed.
pub open spec fn vcp_set_line_text(
    id: Seq<char>,
    name: Seq<char>,
    code: u8,
    value: u16,
    error: Option<Seq<char>>,
    after: Option<(u16, u16)>,
) -> Seq<char> {
    row_head(id, name) + "SET 0x"@ + hex2_upper(code) + match error {
        Some(e) => "\tERROR: "@ + e,
        None => {
            let (cur, max) = match after {
                Some(v) => v,
                None => (0u16, 0u16),
            };
            "="@ + dec_digits(value as nat) + "\tnow "@ + dec_digits(cur as nat) + "/"@ + dec_digits(max as nat)
        },
    }
}

pub open spec fn opt_text(o: Option<String>) -> Option<Seq<char>> {
    match o {
        Some(s) => Some(s@),
        None => None,
    }
}

pub fn vcp_set_line(
    id: &str,
    name: &str,
    code: u8,
    value: u16,
    error: &Option<String>,
    after: Option<(u16, u16)>,
) -> (line: String)
    ensures
        line@ == vcp_set_line_text(id@, name@, code, value, opt_text(*error), after),
{
    let mut out = String::new();
    push_row_head(&mut out, id, name);
    out.append("SET 0x");
    push_hex2_upper(&mut out, code);
    proof {
        reveal_strlit("SET 0x");
        reveal_strlit("\tERROR: ");
        reveal_strlit("=");
        reveal_strlit("\tnow ");
        reveal_strlit("/");
    }
    match error {
        Some(e) => {
            out.append("\tERROR: ");
            out.append(e.as_str());
        },
        None => {
            let (cur, max) = match after {
                Some(v) => v,
                None => (0u16, 0u16),
            };
            out.append("=");
            push_decimal(&mut out, value as u64);
            out.append("\tnow ");
            push_decimal(&mut out, cur as u64);
            out.append("/");
            push_decimal(&mut out, max as u64);
        },
    }
    assert(out@ =~= vcp_set_line_text(id@, name@, code, value, opt_text(*error), after));
    out
}

/// `0xCC` for each code, separated by single spaces.
pub open spec fn hex_codes_text(codes: Seq<u8>) -> Seq<char>
    decreases codes.len(),
{
    if codes.len() == 0 {
        Seq::empty()
    } else if codes.len() == 1 {
        "0x"@ + hex2_upper(codes[0])
    } else {
        hex_codes_text(codes.drop_last()) + " 0x"@ + hex2_upper(codes.last())
    }
}

/// The line listing the VCP codes a capability string declares:
/// `  vcp codes: 0x10 0x12 ...`.
pub fn vcp_codes_line(codes: &Vec<u8>) -> (line: String)
    ensures
        line@ == "  vcp codes: "@ + hex_codes_text(codes@),
{
    let mut out = String::new();
    out.append("  vcp codes: ");
    proof {
        reveal_strlit("  vcp codes: ");
        reveal_strlit("0x");
        reveal_strlit(" 0x");
    }
    let ghost head = out@;
    let mut k: usize = 0;
    while k < codes.len()
        invariant
            k <= codes@.len(),
            head == "  vcp codes: "@,
            out@ == head + hex_codes_text(codes@.take(k as int)),
        decreases codes@.len() - k,
    {
        let ghost before = out@;
        if k == 0 {
            out.append("0x");
        } else {
            out.append(" 0x");
        }
        push_hex2_upper(&mut out, codes[k]);
        proof {
            let t = codes@.take(k + 1);
            assert(t.drop_last() =~= codes@.take(k as int));
            assert(t.last() == codes@[k as int]);
            if k == 0 {
                assert(codes@.take(0) =~= Seq::<u8>::empty());
            }
        }
        assert(out@ =~= head + hex_codes_text(codes@.take(k + 1)));
        k += 1;
    }
    assert(codes@.take(k as int) =~= codes@);
    out
}

/// The mean of `total` over `iterations` runs, an empty run counting as one.
pub fn average(total: u128, iterations: u32) -> (avg: u128)
    ensures
        avg == total / (if iterations == 0 { 1 } else { iterations as u128 }),
{
    let n: u128 = if iterations == 0 { 1 } else { iterations as u128 };
    total / n
}

} // verus!
