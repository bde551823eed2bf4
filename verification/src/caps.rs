//! Parser for the MCCS Capability String returned by Capabilities-Request.
//!
//! Format (informal): `(prot(monitor)type(LCD)model(ABC)cmds(01 02 03 0C E3 F3)
//! vcp(02 04 05 06 08 0B 0C 10 12 14(01 05 06 08 0B 0C) 60(01 03 11 12) ...))`

use std::collections::BTreeMap;

use vstd::prelude::*;
use vstd::std_specs::btree::spec_keys_iter;
use vstd::std_specs::cmp::OrdSpec;
use vstd::std_specs::iter::IteratorSpec;

use crate::text::{
    trim_bounds, trimmed,
    ascii_ws, chars_eq, chars_from, chars_of, hex_digit, hex_digit_value, hex_value, is_ascii_ws,
    is_hex_digit, lemma_hex_value_push, string_from,
};

verus! {

#[derive(Debug, Clone, Default, PartialEq, Eq)]
pub struct Capabilities {
    pub model: Option<String>,
    pub display_type: Option<String>,
    pub protocol: Option<String>,
    /// Map of VCP code → permitted values (empty Vec means "any" per spec).
    pub vcp: BTreeMap<u8, Vec<u16>>,
    /// Raw capability string, useful for diagnostics.
    pub raw: String,
}

/// What a [`Capabilities`] value says, as mathematical values.
pub struct CapabilitiesView {
    pub model: Option<Seq<char>>,
    pub display_type: Option<Seq<char>>,
    pub protocol: Option<Seq<char>>,
    pub vcp: Map<u8, Seq<u16>>,
    pub raw: Seq<char>,
}

pub open spec fn opt_view(o: Option<String>) -> Option<Seq<char>> {
    match o {
        Some(s) => Some(s@),
        None => None,
    }
}

pub open spec fn values_view(m: Map<u8, Vec<u16>>) -> Map<u8, Seq<u16>> {
    m.map_values(|v: Vec<u16>| v@)
}

impl View for Capabilities {
    type V = CapabilitiesView;

    open spec fn view(&self) -> CapabilitiesView {
        CapabilitiesView {
            model: opt_view(self.model),
            display_type: opt_view(self.display_type),
            protocol: opt_view(self.protocol),
            vcp: values_view(self.vcp@),
            raw: self.raw@,
        }
    }
}

impl Capabilities {
    pub fn supports(&self, code: u8) -> (b: bool)
        ensures
            b == self@.vcp.dom().contains(code),
    {
        self.vcp.contains_key(&code)
    }

    /// The VCP codes the capability string declares, in increasing order.
    pub fn vcp_codes(&self) -> (codes: Vec<u8>)
        ensures
            codes@.to_set() == self@.vcp.dom(),
            forall|i: int, j: int| 0 <= i < j < codes@.len() ==> codes@[i] < codes@[j],
    {
        broadcast use vstd::std_specs::btree::group_btree_axioms;

        // The keys in the order the map hands them out.
        let ghost r = IteratorSpec::remaining(&spec_keys_iter(&self.vcp));
        let mut codes: Vec<u8> = Vec::new();
        for k in it: self.vcp.keys()
            invariant
                it.seq() == r,
                codes@ == r.unref().take(it.index()),
        {
            codes.push(*k);
            assert(r.unref().take(it.index() + 1) =~= r.unref().take(it.index()).push(*k));
        }
        assert(codes@ =~= r.unref());
        proof {
            broadcast use vstd::laws_cmp::group_laws_cmp;

            assert(self@.vcp.dom() =~= self.vcp@.dom());
            assert forall|i: int, j: int| 0 <= i < j < codes@.len() implies codes@[i] < codes@[j] by {
                assert(OrdSpec::cmp_spec(&r[i], &r[j]) is Less);
            }
        }
        codes
    }
}

// ---------------------------------------------------------------------------
// Specification
// ---------------------------------------------------------------------------

/// `t` without one enclosing pair of parentheses, when it has one.
pub open spec fn strip_outer_parens(t: Seq<char>) -> Seq<char> {
    if t.len() >= 2 && t[0] == '(' && t.last() == ')' {
        t.subrange(1, t.len() - 1)
    } else {
        t
    }
}

pub open spec fn depth_after(c: char, d: nat) -> nat {
    if c == '(' {
        d + 1
    } else if c == ')' {
        (d - 1) as nat
    } else {
        d
    }
}

/// Index of the first character of `s` at or after `i` that is not ASCII
/// white space (`s.len()` when there is none).
pub open spec fn skip_ws(s: Seq<char>, i: int) -> int
    decreases s.len() - i,
{
    if 0 <= i < s.len() && is_ascii_ws(s[i]) {
        skip_ws(s, i + 1)
    } else {
        i
    }
}

/// Where a key that starts at `i` ends: at the first `(` or white space.
pub open spec fn key_end(s: Seq<char>, i: int) -> int
    decreases s.len() - i,
{
    if 0 <= i < s.len() && s[i] != '(' && !is_ascii_ws(s[i]) {
        key_end(s, i + 1)
    } else {
        i
    }
}

/// Index of the `)` that closes a body which is `d` parentheses deep at
/// `i`, or `s.len()` when the body never closes.
pub open spec fn closing_paren(s: Seq<char>, i: int, d: nat) -> int
    decreases s.len() - i,
{
    if i < 0 || i >= s.len() {
        s.len() as int
    } else if depth_after(s[i], d) == 0 {
        i
    } else {
        closing_paren(s, i + 1, depth_after(s[i], d))
    }
}

/// The scanning positions stay between their start and the end of the text.
pub proof fn lemma_scan_bounds(s: Seq<char>, i: int, d: nat)
    requires
        0 <= i <= s.len(),
    ensures
        i <= skip_ws(s, i) <= s.len(),
        skip_ws(s, i) < s.len() ==> !is_ascii_ws(s[skip_ws(s, i)]),
        i <= key_end(s, i) <= s.len(),
        key_end(s, i) < s.len() ==> s[key_end(s, i)] == '(' || is_ascii_ws(s[key_end(s, i)]),
        i <= closing_paren(s, i, d) <= s.len(),
        i <= word_end(s, i) <= s.len(),
        i <= hex_end(s, i) <= s.len(),
    decreases s.len() - i,
{
    if i < s.len() {
        lemma_scan_bounds(s, i + 1, depth_after(s[i], d));
    }
}

/// The top-level `key(body)` groups of `s` from index `i` on, in order.
/// A group is a key (a run of characters other than white space and `(`)
/// followed by a parenthesised body, which runs to its matching `)` or,
/// when that is missing, to the end. A key without a body is passed over.
pub open spec fn groups_at(s: Seq<char>, i: int) -> Seq<(Seq<char>, Seq<char>)>
    decreases s.len() - i,
{
    if i < 0 || i >= s.len() {
        seq![]
    } else {
        let k = skip_ws(s, i);
        let e = key_end(s, k);
        proof {
            lemma_scan_bounds(s, i, 1);
            lemma_scan_bounds(s, k, 1);
        }
        if k >= s.len() || e >= s.len() {
            seq![]
        } else if s[e] == '(' {
            let c = closing_paren(s, e + 1, 1);
            proof {
                lemma_scan_bounds(s, e + 1, 1);
            }
            if c < s.len() {
                seq![(s.subrange(k, e), s.subrange(e + 1, c))] + groups_at(s, c + 1)
            } else {
                seq![(s.subrange(k, e), s.subrange(e + 1, s.len() as int))]
            }
        } else {
            groups_at(s, e)
        }
    }
}

pub open spec fn groups(s: Seq<char>) -> Seq<(Seq<char>, Seq<char>)> {
    groups_at(s, 0)
}

/// A value token of a VCP entry (`u16::from_str_radix(tok, 16)`): an
/// optional `+`, then one or more hex digits whose value fits in 16 bits.
pub open spec fn parse_hex_u16(tok: Seq<char>) -> Option<u16> {
    let d = digits_part(tok);
    if d.len() > 0 && all_hex(d) && hex_value(d) <= 0xFFFF {
        Some(hex_value(d) as u16)
    } else {
        None
    }
}

/// The token without its optional leading `+`.
pub open spec fn digits_part(tok: Seq<char>) -> Seq<char> {
    if tok.len() > 0 && tok[0] == '+' {
        tok.skip(1)
    } else {
        tok
    }
}

pub open spec fn all_hex(d: Seq<char>) -> bool {
    forall|k: int| 0 <= k < d.len() ==> is_hex_digit(#[trigger] d[k])
}

/// A value token is read as `u16::from_str_radix(tok, 16)` reads it: a
/// lone digit in either letter case is its value, a lone character that is
/// no hex digit is refused, and each further digit multiplies by 16 and adds
/// its value, as long as the result fits in 16 bits.
pub proof fn hex_token_reading(tok: Seq<char>, c: char, x: u16)
    ensures
        '0' <= c <= '9' ==> parse_hex_u16(seq![c]) == Some((c as int - '0' as int) as u16),
        'a' <= c <= 'f' ==> parse_hex_u16(seq![c]) == Some((c as int - 'a' as int + 10) as u16),
        'A' <= c <= 'F' ==> parse_hex_u16(seq![c]) == Some((c as int - 'A' as int + 10) as u16),
        !(('0' <= c <= '9') || ('a' <= c <= 'f') || ('A' <= c <= 'F')) ==> parse_hex_u16(seq![c]) is None,
        parse_hex_u16(tok) == Some(x) ==> (match parse_hex_u16(seq![c]) {
            Some(v) => parse_hex_u16(tok.push(c)) == (if x as int * 16 + v as int <= 0xFFFF {
                Some((x as int * 16 + v as int) as u16)
            } else {
                None
            }),
            None => parse_hex_u16(tok.push(c)) is None,
        }),
{
    let one = seq![c];
    if c != '+' {
        assert(digits_part(one) == one);
    } else {
        assert(digits_part(one) =~= Seq::<char>::empty());
    }
    lemma_hex_value_push(Seq::<char>::empty(), c);
    assert(Seq::<char>::empty().push(c) =~= one);
    if parse_hex_u16(tok) == Some(x) {
        let d = digits_part(tok);
        let t2 = tok.push(c);
        assert(tok.len() > 0);
        if tok[0] == '+' {
            assert(t2.skip(1) =~= d.push(c));
        } else {
            assert(t2 =~= d.push(c));
        }
        assert(digits_part(t2) =~= d.push(c));
        lemma_hex_value_push(d, c);
        if is_hex_digit(c) {
            assert(all_hex(d.push(c))) by {
                assert forall|k: int| 0 <= k < d.push(c).len() implies is_hex_digit(#[trigger] d.push(c)[k]) by {
                    if k < d.len() {
                        assert(d.push(c)[k] == d[k]);
                    }
                }
            }
        } else {
            assert(!all_hex(d.push(c))) by {
                assert(d.push(c)[d.len() as int] == c);
            }
        }
    }
}

pub open spec fn opt_seq(o: Option<u16>) -> Seq<u16> {
    match o {
        Some(v) => seq![v],
        None => seq![],
    }
}

/// Where a word that starts at `i` ends: at the first white space.
pub open spec fn word_end(t: Seq<char>, i: int) -> int
    decreases t.len() - i,
{
    if 0 <= i < t.len() && !is_ascii_ws(t[i]) {
        word_end(t, i + 1)
    } else {
        i
    }
}

/// The values of the white-space separated words of `t` from `i` on that
/// parse, in order (`split_ascii_whitespace`, then `parse_hex_u16`).
pub open spec fn token_values_at(t: Seq<char>, i: int) -> Seq<u16>
    decreases t.len() - i,
{
    if i < 0 || i >= t.len() {
        seq![]
    } else {
        let k = skip_ws(t, i);
        let e = word_end(t, k);
        proof {
            lemma_scan_bounds(t, i, 1);
            lemma_scan_bounds(t, k, 1);
            if k < t.len() {
                lemma_scan_bounds(t, k + 1, 1);
            }
        }
        if k >= t.len() {
            seq![]
        } else {
            opt_seq(parse_hex_u16(t.subrange(k, e))) + token_values_at(t, e)
        }
    }
}

pub open spec fn token_values(t: Seq<char>) -> Seq<u16> {
    token_values_at(t, 0)
}

/// Where a run of hex digits that starts at `i` ends.
pub open spec fn hex_end(s: Seq<char>, i: int) -> int
    decreases s.len() - i,
{
    if 0 <= i < s.len() && is_hex_digit(s[i]) {
        hex_end(s, i + 1)
    } else {
        i
    }
}

/// The `code(values)` entries of a `vcp(...)` body from index `i` on, in
/// order. A code is a run of hex digits whose value fits in a byte; it may
/// be followed by a parenthesised list of values, which runs to its
/// matching `)` or, when that is missing, to the end. A character that
/// starts no code is passed over, and a run that does not fit in a byte is
/// dropped, the scan going on right after it.
pub open spec fn vcp_entries_at(s: Seq<char>, i: int) -> Seq<(u8, Seq<u16>)>
    decreases s.len() - i,
{
    if i < 0 || i >= s.len() {
        seq![]
    } else {
        let k = skip_ws(s, i);
        let h = hex_end(s, k);
        proof {
            lemma_scan_bounds(s, i, 1);
            lemma_scan_bounds(s, k, 1);
        }
        if k >= s.len() {
            seq![]
        } else if h == k {
            vcp_entries_at(s, k + 1)
        } else if hex_value(s.subrange(k, h)) > 255 {
            vcp_entries_at(s, h)
        } else if h < s.len() && s[h] == '(' {
            let code = hex_value(s.subrange(k, h)) as u8;
            let c = closing_paren(s, h + 1, 1);
            proof {
                lemma_scan_bounds(s, h + 1, 1);
            }
            if c < s.len() {
                seq![(code, token_values(s.subrange(h + 1, c)))] + vcp_entries_at(s, c + 1)
            } else {
                seq![(code, token_values(s.subrange(h + 1, s.len() as int)))]
            }
        } else {
            seq![(hex_value(s.subrange(k, h)) as u8, Seq::<u16>::empty())] + vcp_entries_at(s, h)
        }
    }
}

pub open spec fn vcp_entries(s: Seq<char>) -> Seq<(u8, Seq<u16>)> {
    vcp_entries_at(s, 0)
}

/// `m` with the entries inserted in order (a later code overrides an earlier one).
pub open spec fn insert_all(m: Map<u8, Seq<u16>>, es: Seq<(u8, Seq<u16>)>) -> Map<u8, Seq<u16>>
    decreases es.len(),
{
    if es.len() == 0 {
        m
    } else {
        insert_all(m.insert(es[0].0, es[0].1), es.drop_first())
    }
}

/// The effect of one top-level group on the decoded capabilities.
pub open spec fn apply_group(acc: CapabilitiesView, g: (Seq<char>, Seq<char>)) -> CapabilitiesView {
    if g.0 == "model"@ {
        CapabilitiesView { model: Some(g.1), ..acc }
    } else if g.0 == "type"@ {
        CapabilitiesView { display_type: Some(g.1), ..acc }
    } else if g.0 == "prot"@ || g.0 == "protocol"@ {
        CapabilitiesView { protocol: Some(g.1), ..acc }
    } else if g.0 == "vcp"@ {
        CapabilitiesView { vcp: insert_all(acc.vcp, vcp_entries(g.1)), ..acc }
    } else {
        acc
    }
}

pub open spec fn apply_groups(acc: CapabilitiesView, gs: Seq<(Seq<char>, Seq<char>)>) -> CapabilitiesView
    decreases gs.len(),
{
    if gs.len() == 0 {
        acc
    } else {
        apply_groups(apply_group(acc, gs[0]), gs.drop_first())
    }
}

/// What [`parse`] decodes from a capability string.
pub open spec fn capabilities_of(raw: Seq<char>) -> CapabilitiesView {
    apply_groups(
        CapabilitiesView {
            model: None,
            display_type: None,
            protocol: None,
            vcp: Map::empty(),
            raw: raw,
        },
        groups(strip_outer_parens(trimmed(raw))),
    )
}

proof fn lemma_apply_groups_keeps_raw(acc: CapabilitiesView, gs: Seq<(Seq<char>, Seq<char>)>)
    ensures
        apply_groups(acc, gs).raw == acc.raw,
    decreases gs.len(),
{
    if gs.len() > 0 {
        lemma_apply_groups_keeps_raw(apply_group(acc, gs[0]), gs.drop_first());
    }
}

/// Parsing keeps the capability string it was given, whatever it holds.
pub proof fn parse_keeps_raw(raw: Seq<char>)
    ensures
        capabilities_of(raw).raw == raw,
{
    lemma_apply_groups_keeps_raw(
        CapabilitiesView { model: None, display_type: None, protocol: None, vcp: Map::empty(), raw: raw },
        groups(strip_outer_parens(trimmed(raw))),
    );
}

} // verus!

verus! {

pub open spec fn group_views(v: Seq<(Vec<char>, Vec<char>)>) -> Seq<(Seq<char>, Seq<char>)> {
    v.map_values(|p: (Vec<char>, Vec<char>)| (p.0@, p.1@))
}

/// Walk the top-level `key(body)` groups of the capability string.
fn iter_top_level_groups(s: &[char]) -> (out: Vec<(Vec<char>, Vec<char>)>)
    ensures
        group_views(out@) == groups(s@),
{
    let ghost total = groups(s@);
    let mut out: Vec<(Vec<char>, Vec<char>)> = Vec::new();
    let mut i: usize = 0;
    while i < s.len()
        invariant
            i <= s@.len(),
            group_views(out@) + groups_at(s@, i as int) == total,
        ensures
            i >= s@.len(),
            group_views(out@) + groups_at(s@, i as int) == total,
        decreases s@.len() - i,
    {
        let ghost i0 = i;
        // Skip whitespace.
        while i < s.len() && ascii_ws(s[i])
            invariant
                i0 <= i <= s@.len(),
                skip_ws(s@, i0 as int) == skip_ws(s@, i as int),
            decreases s@.len() - i,
        {
            i += 1;
        }
        if i >= s.len() {
            assert(groups_at(s@, i0 as int) =~= Seq::<(Seq<char>, Seq<char>)>::empty());
            assert(groups_at(s@, i as int) =~= Seq::<(Seq<char>, Seq<char>)>::empty());
            break;
        }
        // Read key until `(` or whitespace.
        let key_start = i;
        while i < s.len() && s[i] != '(' && !ascii_ws(s[i])
            invariant
                key_start <= i <= s@.len(),
                key_end(s@, key_start as int) == key_end(s@, i as int),
            decreases s@.len() - i,
        {
            i += 1;
        }
        let key_end_at = i;
        if i >= s.len() || s[i] != '(' {
            // No body — skip.
            assert(groups_at(s@, i0 as int) == groups_at(s@, i as int));
            continue;
        }
        // Match parentheses.
        let body_start = i + 1;
        let mut depth: usize = 1;
        i += 1;
        while i < s.len() && depth > 0
            invariant
                key_end_at + 1 == body_start,
                body_start <= i <= s@.len(),
                depth <= i - body_start + 1,
                depth > 0 ==> closing_paren(s@, body_start as int, 1) == closing_paren(
                    s@,
                    i as int,
                    depth as nat,
                ),
                depth == 0 ==> i >= body_start + 1 && closing_paren(s@, body_start as int, 1) == i - 1,
            decreases s@.len() - i,
        {
            if s[i] == '(' {
                depth += 1;
            } else if s[i] == ')' {
                depth -= 1;
            }
            i += 1;
        }
        let body_end = if depth == 0 { i - 1 } else { i };
        let ghost before = out@;
        let key = chars_from(s, key_start, key_end_at);
        let body = chars_from(s, body_start, body_end);
        out.push((key, body));
        proof {
            let g = (
                s@.subrange(key_start as int, key_end_at as int),
                s@.subrange(body_start as int, body_end as int),
            );
            assert(group_views(out@) =~= group_views(before).push(g));
            if depth == 0 {
                assert(groups_at(s@, i0 as int) == seq![g] + groups_at(s@, i as int));
            } else {
                assert(groups_at(s@, i0 as int) == seq![g]);
                assert(groups_at(s@, i as int) =~= Seq::<(Seq<char>, Seq<char>)>::empty());
            }
            assert(group_views(out@) + groups_at(s@, i as int) =~= group_views(before) + groups_at(
                s@,
                i0 as int,
            ));
        }
    }
    assert(groups_at(s@, i as int) =~= Seq::<(Seq<char>, Seq<char>)>::empty());
    assert(group_views(out@) =~= total);
    out
}

} // verus!

verus! {

/// Parse one value token `t[a..b]` as `u16::from_str_radix(tok, 16)` does.
fn parse_hex_token(t: &[char], a: usize, b: usize) -> (r: Option<u16>)
    requires
        a <= b <= t@.len(),
    ensures
        r == parse_hex_u16(t@.subrange(a as int, b as int)),
{
    let ghost tok = t@.subrange(a as int, b as int);
    let mut j = a;
    if j < b && t[j] == '+' {
        j += 1;
    }
    let start = j;
    let ghost d = t@.subrange(start as int, b as int);
    assert(d =~= digits_part(tok));
    if j >= b {
        return None;
    }
    let mut v: u32 = 0;
    while j < b
        invariant
            start <= j <= b <= t@.len(),
            d == t@.subrange(start as int, b as int),
            tok == t@.subrange(a as int, b as int),
            d == digits_part(tok),
            forall|k: int| start <= k < j ==> is_hex_digit(#[trigger] t@[k]),
            hex_value(t@.subrange(start as int, j as int)) > 0xFFFF ==> v == 0x10000,
            hex_value(t@.subrange(start as int, j as int)) <= 0xFFFF ==> v == hex_value(
                t@.subrange(start as int, j as int),
            ),
        decreases b - j,
    {
        match hex_digit(t[j]) {
            None => {
                assert(!is_hex_digit(d[j - start]));
                return None;
            },
            Some(dv) => {
                proof {
                    lemma_hex_value_push(t@.subrange(start as int, j as int), t@[j as int]);
                    assert(t@.subrange(start as int, j + 1) =~= t@.subrange(start as int, j as int).push(
                        t@[j as int],
                    ));
                }
                if v >= 0x10000 {
                    v = 0x10000;
                } else {
                    let w = v * 16 + dv;
                    v = if w > 0xFFFF { 0x10000 } else { w };
                }
            },
        }
        j += 1;
    }
    assert(t@.subrange(start as int, j as int) =~= d);
    assert forall|k: int| 0 <= k < d.len() implies is_hex_digit(#[trigger] d[k]) by {
        assert(d[k] == t@[start + k]);
    }
    assert(all_hex(d));
    if v > 0xFFFF {
        None
    } else {
        Some(v as u16)
    }
}

/// The values of the whitespace-separated hex tokens of `t` that parse.
fn token_values_of(t: &[char]) -> (out: Vec<u16>)
    ensures
        out@ == token_values(t@),
{
    let ghost total = token_values(t@);
    let mut out: Vec<u16> = Vec::new();
    let mut i: usize = 0;
    while i < t.len()
        invariant
            i <= t@.len(),
            out@ + token_values_at(t@, i as int) == total,
        ensures
            i >= t@.len(),
            out@ + token_values_at(t@, i as int) == total,
        decreases t@.len() - i,
    {
        let ghost i0 = i;
        while i < t.len() && ascii_ws(t[i])
            invariant
                i0 <= i <= t@.len(),
                skip_ws(t@, i0 as int) == skip_ws(t@, i as int),
            decreases t@.len() - i,
        {
            i += 1;
        }
        if i >= t.len() {
            assert(token_values_at(t@, i0 as int) =~= Seq::<u16>::empty());
            assert(token_values_at(t@, i as int) =~= Seq::<u16>::empty());
            break;
        }
        let st = i;
        while i < t.len() && !ascii_ws(t[i])
            invariant
                st <= i <= t@.len(),
                word_end(t@, st as int) == word_end(t@, i as int),
            decreases t@.len() - i,
        {
            i += 1;
        }
        let ghost before = out@;
        let r = parse_hex_token(t, st, i);
        if let Some(v) = r {
            out.push(v);
        }
        proof {
            assert(out@ =~= before + opt_seq(r));
            assert(token_values_at(t@, i0 as int) == opt_seq(r) + token_values_at(t@, i as int));
            assert(out@ + token_values_at(t@, i as int) =~= before + token_values_at(t@, i0 as int));
        }
    }
    assert(token_values_at(t@, i as int) =~= Seq::<u16>::empty());
    assert(out@ =~= total);
    out
}

} // verus!

verus! {

proof fn lemma_insert_all_first(m: Map<u8, Seq<u16>>, e: (u8, Seq<u16>), rest: Seq<(u8, Seq<u16>)>)
    ensures
        insert_all(m, seq![e] + rest) == insert_all(m.insert(e.0, e.1), rest),
{
    assert((seq![e] + rest).drop_first() =~= rest);
}

proof fn lemma_values_view_insert(m: Map<u8, Vec<u16>>, k: u8, v: Vec<u16>)
    ensures
        values_view(m.insert(k, v)) == values_view(m).insert(k, v@),
{
    assert(values_view(m.insert(k, v)) =~= values_view(m).insert(k, v@));
}

/// Parse the body of the `vcp(...)` group into `out`.
fn parse_vcp(s: &[char], out: &mut BTreeMap<u8, Vec<u16>>)
    ensures
        values_view(final(out)@) == insert_all(values_view(old(out)@), vcp_entries(s@)),
{
    let ghost goal = insert_all(values_view(old(out)@), vcp_entries(s@));
    let mut i: usize = 0;
    while i < s.len()
        invariant
            i <= s@.len(),
            insert_all(values_view(out@), vcp_entries_at(s@, i as int)) == goal,
        ensures
            i >= s@.len(),
            insert_all(values_view(out@), vcp_entries_at(s@, i as int)) == goal,
        decreases s@.len() - i,
    {
        let ghost i0 = i;
        while i < s.len() && ascii_ws(s[i])
            invariant
                i0 <= i <= s@.len(),
                skip_ws(s@, i0 as int) == skip_ws(s@, i as int),
            decreases s@.len() - i,
        {
            i += 1;
        }
        if i >= s.len() {
            assert(vcp_entries_at(s@, i0 as int) =~= Seq::<(u8, Seq<u16>)>::empty());
            assert(vcp_entries_at(s@, i as int) =~= Seq::<(u8, Seq<u16>)>::empty());
            break;
        }
        // Parse a hex code (the run of hex digits).
        let start = i;
        let mut v: u32 = 0;
        loop
            invariant
                start <= i <= s@.len(),
                start < s@.len(),
                hex_end(s@, start as int) == hex_end(s@, i as int),
                hex_value(s@.subrange(start as int, i as int)) > 255 ==> v == 256,
                hex_value(s@.subrange(start as int, i as int)) <= 255 ==> v == hex_value(
                    s@.subrange(start as int, i as int),
                ),
            ensures
                start <= i <= s@.len(),
                start < s@.len(),
                i == hex_end(s@, start as int),
                hex_value(s@.subrange(start as int, i as int)) > 255 ==> v == 256,
                hex_value(s@.subrange(start as int, i as int)) <= 255 ==> v == hex_value(
                    s@.subrange(start as int, i as int),
                ),
            decreases s@.len() - i,
        {
            if i >= s.len() {
                break;
            }
            let dv = match hex_digit(s[i]) {
                Some(dv) => dv,
                None => break,
            };
            proof {
                lemma_hex_value_push(s@.subrange(start as int, i as int), s@[i as int]);
                assert(s@.subrange(start as int, i + 1) =~= s@.subrange(start as int, i as int).push(
                    s@[i as int],
                ));
            }
            if v >= 256 {
                v = 256;
            } else {
                let w = v * 16 + dv;
                v = if w > 255 { 256 } else { w };
            }
            i += 1;
        }
        if start == i {
            i += 1;  // skip unrecognized char
            assert(vcp_entries_at(s@, i0 as int) == vcp_entries_at(s@, i as int));
            continue;
        }
        if v > 255 {
            assert(vcp_entries_at(s@, i0 as int) == vcp_entries_at(s@, i as int));
            continue;
        }
        let code = v as u8;
        let ghost m0 = values_view(out@);
        // Optional value list `(1 2 3)`.
        if i < s.len() && s[i] == '(' {
            let body_start = i + 1;
            let mut depth: usize = 1;
            i += 1;
            while i < s.len() && depth > 0
                invariant
                    1 <= body_start <= i <= s@.len(),
                    depth <= i - body_start + 1,
                    depth > 0 ==> closing_paren(s@, body_start as int, 1) == closing_paren(
                        s@,
                        i as int,
                        depth as nat,
                    ),
                    depth == 0 ==> i >= body_start + 1 && closing_paren(s@, body_start as int, 1) == i - 1,
                decreases s@.len() - i,
            {
                if s[i] == '(' {
                    depth += 1;
                } else if s[i] == ')' {
                    depth -= 1;
                }
                i += 1;
            }
            let body_end = if depth == 0 { i - 1 } else { i };
            let inner = chars_from(s, body_start, body_end);
            let values = token_values_of(inner.as_slice());
            let ghost vals = values@;
            let ghost pre = out@;
            out.insert(code, values);
            proof {
                lemma_values_view_insert(pre, code, values);
                let e = (code, vals);
                if depth == 0 {
                    assert(vcp_entries_at(s@, i0 as int) == seq![e] + vcp_entries_at(s@, i as int));
                    lemma_insert_all_first(m0, e, vcp_entries_at(s@, i as int));
                } else {
                    assert(vcp_entries_at(s@, i0 as int) == seq![e]);
                    assert(vcp_entries_at(s@, i as int) =~= Seq::<(u8, Seq<u16>)>::empty());
                    lemma_insert_all_first(m0, e, Seq::<(u8, Seq<u16>)>::empty());
                    assert(seq![e] + Seq::<(u8, Seq<u16>)>::empty() =~= seq![e]);
                }
            }
        } else {
            let values: Vec<u16> = Vec::new();
            let ghost pre = out@;
            out.insert(code, values);
            proof {
                lemma_values_view_insert(pre, code, values);
                let e = (code, Seq::<u16>::empty());
                assert(values@ =~= Seq::<u16>::empty());
                assert(vcp_entries_at(s@, i0 as int) == seq![e] + vcp_entries_at(s@, i as int));
                lemma_insert_all_first(m0, e, vcp_entries_at(s@, i as int));
            }
        }
    }
    assert(vcp_entries_at(s@, i as int) =~= Seq::<(u8, Seq<u16>)>::empty());
}

} // verus!

verus! {

/// Parse an MCCS capability string.
pub fn parse(raw: &str) -> (caps: Capabilities)
    ensures
        caps@ == capabilities_of(raw@),
{
    let mut caps = Capabilities {
        model: None,
        display_type: None,
        protocol: None,
        vcp: BTreeMap::new(),
        raw: raw.to_owned(),
    };
    assert(values_view(caps.vcp@) =~= Map::<u8, Seq<u16>>::empty());
    let all = chars_of(raw);
    // Strip outer parens if present.
    let (lo, hi) = trim_bounds(all.as_slice());
    let inner = if hi - lo >= 2 && all[lo] == '(' && all[hi - 1] == ')' {
        chars_from(all.as_slice(), lo + 1, hi - 1)
    } else {
        chars_from(all.as_slice(), lo, hi)
    };
    proof {
        let t = all@.subrange(lo as int, hi as int);
        assert(t =~= trimmed(raw@));
        if hi - lo >= 2 && all@[lo as int] == '(' && all@[hi - 1] == ')' {
            assert(inner@ =~= strip_outer_parens(t));
        } else {
            assert(inner@ =~= strip_outer_parens(t));
        }
    }
    let found = iter_top_level_groups(inner.as_slice());
    let ghost gs = group_views(found@);
    let ghost init = caps@;
    assert(gs.skip(0) =~= gs);
    let mut k: usize = 0;
    while k < found.len()
        invariant
            k <= found@.len(),
            gs == group_views(found@),
            gs == groups(inner@),
            apply_groups(init, gs) == apply_groups(caps@, gs.skip(k as int)),
        decreases found@.len() - k,
    {
        let key = &found[k].0;
        let body = &found[k].1;
        let ghost before = caps@;
        proof {
            assert(gs[k as int] == (key@, body@));
        }
        if chars_eq(key.as_slice(), "model") {
            caps.model = Some(string_from(body.as_slice(), 0, body.len()));
        } else if chars_eq(key.as_slice(), "type") {
            caps.display_type = Some(string_from(body.as_slice(), 0, body.len()));
        } else if chars_eq(key.as_slice(), "prot") || chars_eq(key.as_slice(), "protocol") {
            caps.protocol = Some(string_from(body.as_slice(), 0, body.len()));
        } else if chars_eq(key.as_slice(), "vcp") {
            parse_vcp(body.as_slice(), &mut caps.vcp);
        }
        proof {
            assert(body@.subrange(0, body@.len() as int) =~= body@);
            assert(caps@ == apply_group(before, gs[k as int]));
            assert(gs.skip(k as int).drop_first() =~= gs.skip(k + 1));
        }
        k += 1;
    }
    assert(gs.skip(k as int) =~= Seq::<(Seq<char>, Seq<char>)>::empty());
    assert(init == (CapabilitiesView {
        model: None,
        display_type: None,
        protocol: None,
        vcp: Map::empty(),
        raw: raw@,
    }));
    caps
}

} // verus!
