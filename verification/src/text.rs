//! Character-level helpers shared by the parsers and message builders.

use vstd::prelude::*;

verus! {

/// Appends one character to a `String` (`String::push`).
#[verifier::external_body]
pub(crate) fn push_char(s: &mut String, c: char)
    ensures
        final(s)@ == old(s)@.push(c),
{
    s.push(c);
}

/// The characters of a string slice, collected into a vector.
pub fn chars_of(s: &str) -> (out: Vec<char>)
    ensures
        out@ == s@,
{
    let mut out: Vec<char> = Vec::new();
    for c in it: s.chars()
        invariant
            out@ == it.seq().take(it.index()),
            it.seq() == s@,
    {
        out.push(c);
    }
    out
}

pub open spec fn digit_char(d: nat) -> char {
    if d < 10 { (('0' as nat) + d) as char } else { (('A' as nat) + d - 10) as char }
}

/// Decimal digits of `n`, most significant first, without leading zeros.
pub open spec fn dec_digits(n: nat) -> Seq<char>
    decreases n,
{
    if n < 10 {
        seq![digit_char(n)]
    } else {
        dec_digits(n / 10).push(digit_char(n % 10))
    }
}

/// Appends the decimal representation of `n`.
pub fn push_decimal(out: &mut String, n: u64)
    ensures
        final(out)@ == old(out)@ + dec_digits(n as nat),
    decreases n,
{
    if n >= 10 {
        push_decimal(out, n / 10);
    }
    let d = (n % 10) as u8;
    let c = (48u8 + d) as char;
    push_char(out, c);
    assert(final(out)@ =~= old(out)@ + dec_digits(n as nat));
}

} // verus!

verus! {

/// Upper-case hexadecimal digit of `d` (`d < 16`).
pub open spec fn hex_digit_upper(d: nat) -> char {
    digit_char(d)
}

/// The two upper-case hex digits of `b` (`{:02X}`).
pub open spec fn hex2_upper(b: u8) -> Seq<char> {
    seq![hex_digit_upper((b / 16) as nat), hex_digit_upper((b % 16) as nat)]
}

fn hex_char_upper(d: u8) -> (c: char)
    requires
        d < 16,
    ensures
        c == hex_digit_upper(d as nat),
{
    if d < 10 {
        (48u8 + d) as char
    } else {
        (55u8 + d) as char
    }
}

/// Appends `b` as two upper-case hexadecimal digits.
pub fn push_hex2_upper(out: &mut String, b: u8)
    ensures
        final(out)@ == old(out)@ + hex2_upper(b),
{
    push_char(out, hex_char_upper(b / 16));
    push_char(out, hex_char_upper(b % 16));
    assert(final(out)@ =~= old(out)@ + hex2_upper(b));
}

} // verus!

verus! {

/// ASCII whitespace as `u8::is_ascii_whitespace` / `char::is_ascii_whitespace` define it.
pub open spec fn is_ascii_ws(c: char) -> bool {
    c == ' ' || c == '\t' || c == '\n' || c == '\x0C' || c == '\r'
}

pub fn ascii_ws(c: char) -> (b: bool)
    ensures
        b == is_ascii_ws(c),
{
    c == ' ' || c == '\t' || c == '\n' || c == '\x0C' || c == '\r'
}

/// An ASCII hexadecimal digit.
pub open spec fn is_hex_digit(c: char) -> bool {
    ('0' <= c && c <= '9') || ('a' <= c && c <= 'f') || ('A' <= c && c <= 'F')
}

/// The value of a hexadecimal digit.
pub open spec fn hex_digit_value(c: char) -> nat {
    if '0' <= c && c <= '9' {
        (c as nat - '0' as nat) as nat
    } else if 'a' <= c && c <= 'f' {
        (c as nat - 'a' as nat + 10) as nat
    } else {
        (c as nat - 'A' as nat + 10) as nat
    }
}

/// The value of a run of hexadecimal digits, most significant first.
pub open spec fn hex_value(d: Seq<char>) -> nat
    decreases d.len(),
{
    if d.len() == 0 {
        0
    } else {
        hex_value(d.drop_last()) * 16 + hex_digit_value(d.last())
    }
}

pub fn hex_digit(c: char) -> (r: Option<u32>)
    ensures
        r is Some <==> is_hex_digit(c),
        r matches Some(v) ==> v == hex_digit_value(c) && v < 16,
{
    if '0' <= c && c <= '9' {
        Some(c as u32 - '0' as u32)
    } else if 'a' <= c && c <= 'f' {
        Some(c as u32 - 'a' as u32 + 10)
    } else if 'A' <= c && c <= 'F' {
        Some(c as u32 - 'A' as u32 + 10)
    } else {
        None
    }
}

pub proof fn lemma_hex_value_push(d: Seq<char>, c: char)
    ensures
        hex_value(d.push(c)) == hex_value(d) * 16 + hex_digit_value(c),
{
    assert(d.push(c).drop_last() =~= d);
}

/// A `String` holding the characters `v[a..b]`.
pub fn string_from(v: &[char], a: usize, b: usize) -> (s: String)
    requires
        a <= b <= v@.len(),
    ensures
        s@ == v@.subrange(a as int, b as int),
{
    let mut s = String::new();
    let mut i = a;
    while i < b
        invariant
            a <= i <= b <= v@.len(),
            s@ == v@.subrange(a as int, i as int),
        decreases b - i,
    {
        push_char(&mut s, v[i]);
        i += 1;
        assert(s@ =~= v@.subrange(a as int, i as int));
    }
    s
}

/// The characters `v[a..b]` as a vector.
pub fn chars_from(v: &[char], a: usize, b: usize) -> (out: Vec<char>)
    requires
        a <= b <= v@.len(),
    ensures
        out@ == v@.subrange(a as int, b as int),
{
    let mut out: Vec<char> = Vec::new();
    let mut i = a;
    while i < b
        invariant
            a <= i <= b <= v@.len(),
            out@ == v@.subrange(a as int, i as int),
        decreases b - i,
    {
        out.push(v[i]);
        i += 1;
        assert(out@ =~= v@.subrange(a as int, i as int));
    }
    out
}

/// Whether the characters of `v` are exactly those of `lit`.
pub fn chars_eq(v: &[char], lit: &str) -> (b: bool)
    ensures
        b == (v@ == lit@),
{
    let w = chars_of(lit);
    if v.len() != w.len() {
        return false;
    }
    let mut i: usize = 0;
    while i < v.len()
        invariant
            v@.len() == w@.len(),
            w@ == lit@,
            i <= v@.len(),
            forall|k: int| 0 <= k < i ==> v@[k] == w@[k],
        decreases v.len() - i,
    {
        if v[i] != w[i] {
            assert(v@[i as int] != w@[i as int]);
            return false;
        }
        i += 1;
    }
    assert(v@ =~= w@);
    true
}

} // verus!

verus! {

/// The Unicode `White_Space` property, which `str::trim` strips.
pub open spec fn is_white_space(c: char) -> bool {
    let u = c as u32;
    (0x09 <= u && u <= 0x0D) || u == 0x20 || u == 0x85 || u == 0xA0 || u == 0x1680 || (0x2000 <= u
        && u <= 0x200A) || u == 0x2028 || u == 0x2029 || u == 0x202F || u == 0x205F || u == 0x3000
}

pub open spec fn trim_start(s: Seq<char>, i: int) -> int
    decreases s.len() - i,
{
    if 0 <= i < s.len() && is_white_space(s[i]) {
        trim_start(s, i + 1)
    } else {
        i
    }
}

pub open spec fn trim_end(s: Seq<char>, lo: int, j: int) -> int
    decreases j - lo,
{
    if lo < j && is_white_space(s[j - 1]) {
        trim_end(s, lo, j - 1)
    } else {
        j
    }
}

/// `s` without leading and trailing white space (`str::trim`).
pub open spec fn trimmed(s: Seq<char>) -> Seq<char> {
    let lo = trim_start(s, 0);
    s.subrange(lo, trim_end(s, lo, s.len() as int))
}

pub fn white_space(c: char) -> (b: bool)
    ensures
        b == is_white_space(c),
{
    let u = c as u32;
    (0x09 <= u && u <= 0x0D) || u == 0x20 || u == 0x85 || u == 0xA0 || u == 0x1680 || (0x2000 <= u
        && u <= 0x200A) || u == 0x2028 || u == 0x2029 || u == 0x202F || u == 0x205F || u == 0x3000
}

/// The bounds of `s` without leading and trailing white space.
pub fn trim_bounds(s: &[char]) -> (r: (usize, usize))
    ensures
        r.0 == trim_start(s@, 0),
        r.1 == trim_end(s@, r.0 as int, s@.len() as int),
        r.0 <= r.1 <= s@.len(),
{
    let mut lo: usize = 0;
    while lo < s.len() && white_space(s[lo])
        invariant
            lo <= s@.len(),
            trim_start(s@, 0) == trim_start(s@, lo as int),
        decreases s@.len() - lo,
    {
        lo += 1;
    }
    let mut hi: usize = s.len();
    while hi > lo && white_space(s[hi - 1])
        invariant
            lo <= hi <= s@.len(),
            trim_end(s@, lo as int, s@.len() as int) == trim_end(s@, lo as int, hi as int),
        decreases hi - lo,
    {
        hi -= 1;
    }
    (lo, hi)
}

} // verus!

verus! {

/// The two lower-case hex digits of `b` (as in `{:#04x}` after the `0x`).
pub open spec fn hex2_lower(b: u8) -> Seq<char> {
    seq![hex_digit_lower((b / 16) as nat), hex_digit_lower((b % 16) as nat)]
}

pub open spec fn hex_digit_lower(d: nat) -> char {
    if d < 10 { (('0' as nat) + d) as char } else { (('a' as nat) + d - 10) as char }
}

fn hex_char_lower(d: u8) -> (c: char)
    requires
        d < 16,
    ensures
        c == hex_digit_lower(d as nat),
{
    if d < 10 {
        (48u8 + d) as char
    } else {
        (87u8 + d) as char
    }
}

/// Appends `b` as two lower-case hexadecimal digits.
pub fn push_hex2_lower(out: &mut String, b: u8)
    ensures
        final(out)@ == old(out)@ + hex2_lower(b),
{
    push_char(out, hex_char_lower(b / 16));
    push_char(out, hex_char_lower(b % 16));
    assert(final(out)@ =~= old(out)@ + hex2_lower(b));
}

} // verus!
