//! Reading the focused application's X11 class from `xprop` output: the
//! desktop front end runs `xprop -root _NET_ACTIVE_WINDOW`, then
//! `xprop -id <window> WM_CLASS`, and selects a profile by the class.

use vstd::prelude::*;

use crate::text::{chars_of, is_white_space, string_from, trim_bounds, trim_end, trimmed, white_space};

verus! {

/// Index of the start of the run of non-white-space characters that ends at `j`.
pub open spec fn token_start(s: Seq<char>, j: int) -> int
    decreases j,
{
    if j > 0 && !is_white_space(s[j - 1]) {
        token_start(s, j - 1)
    } else {
        j
    }
}

/// The last white-space separated word of `s` (`split_whitespace().last()`).
pub open spec fn last_word(s: Seq<char>) -> Option<Seq<char>> {
    let e = trim_end(s, 0, s.len() as int);
    if e == 0 {
        None
    } else {
        Some(s.subrange(token_start(s, e), e))
    }
}

/// The window id that `xprop -root _NET_ACTIVE_WINDOW` reports: the last
/// word of its output, unless there is none or it is `0x0` (no window).
pub open spec fn active_window_of(out: Seq<char>) -> Option<Seq<char>> {
    match last_word(out) {
        Some(w) => if w == "0x0"@ {
            None
        } else {
            Some(w)
        },
        None => None,
    }
}

/// The id of the focused window in `xprop -root _NET_ACTIVE_WINDOW` output.
pub fn active_window_id(out: &str) -> (r: Option<String>)
    ensures
        match active_window_of(out@) {
            Some(w) => r matches Some(s) && s@ == w,
            None => r is None,
        },
{
    let cs = chars_of(out);
    let mut e: usize = cs.len();
    while e > 0 && white_space(cs[e - 1])
        invariant
            e <= cs@.len(),
            cs@ == out@,
            trim_end(out@, 0, out@.len() as int) == trim_end(out@, 0, e as int),
        decreases e,
    {
        e -= 1;
    }
    if e == 0 {
        return None;
    }
    let mut b: usize = e;
    while b > 0 && !white_space(cs[b - 1])
        invariant
            b <= e <= cs@.len(),
            cs@ == out@,
            token_start(out@, e as int) == token_start(out@, b as int),
        decreases b,
    {
        b -= 1;
    }
    let w = string_from(cs.as_slice(), b, e);
    proof {
        reveal_strlit("0x0");
    }
    if e - b == 3 && cs[b] == '0' && cs[b + 1] == 'x' && cs[b + 2] == '0' {
        assert(w@ =~= "0x0"@);
        None
    } else {
        assert(w@ != "0x0"@) by {
            if w@ == "0x0"@ {
                assert(w@[0] == '0' && w@[1] == 'x' && w@[2] == '0');
            }
        }
        Some(w)
    }
}

/// Index of the first `c` at or after `i`, or `s.len()`.
pub open spec fn find_from(s: Seq<char>, c: char, i: int) -> int
    decreases s.len() - i,
{
    if i < 0 || i >= s.len() {
        s.len() as int
    } else if s[i] == c {
        i
    } else {
        find_from(s, c, i + 1)
    }
}

/// Index of the first character at or after `i` that is not `c`, or `s.len()`.
pub open spec fn skip_from(s: Seq<char>, c: char, i: int) -> int
    decreases s.len() - i,
{
    if 0 <= i < s.len() && s[i] == c {
        skip_from(s, c, i + 1)
    } else {
        i
    }
}

/// `j` moved down past the characters `c` that end `s[lo..j]`.
pub open spec fn back_from(s: Seq<char>, c: char, lo: int, j: int) -> int
    decreases j - lo,
{
    if lo < j && s[j - 1] == c {
        back_from(s, c, lo, j - 1)
    } else {
        j
    }
}

/// `t.trim_matches(c)`.
pub open spec fn trim_char(t: Seq<char>, c: char) -> Seq<char> {
    let lo = skip_from(t, c, 0);
    t.subrange(lo, back_from(t, c, lo, t.len() as int))
}

/// The class that `xprop -id <window> WM_CLASS` reports
/// (`WM_CLASS(STRING) = "instance", "Class"`): the text between the first
/// and the second `=` (or the end), trimmed, without enclosing quotes, up to
/// the next quote. `None` when the output has no `=`.
pub open spec fn wm_class_of(out: Seq<char>) -> Option<Seq<char>> {
    let eq = find_from(out, '=', 0);
    if eq >= out.len() {
        None
    } else {
        let field = out.subrange(eq + 1, find_from(out, '=', eq + 1));
        let u = trim_char(trimmed(field), '"');
        Some(u.take(find_from(u, '"', 0)))
    }
}

fn find_char(s: &[char], c: char, i: usize) -> (r: usize)
    requires
        i <= s@.len(),
    ensures
        r == find_from(s@, c, i as int),
        i <= r <= s@.len(),
{
    let mut k = i;
    while k < s.len() && s[k] != c
        invariant
            i <= k <= s@.len(),
            find_from(s@, c, i as int) == find_from(s@, c, k as int),
        decreases s@.len() - k,
    {
        k += 1;
    }
    k
}

/// The window class in `xprop -id <window> WM_CLASS` output.
pub fn wm_class(out: &str) -> (r: Option<String>)
    ensures
        match wm_class_of(out@) {
            Some(c) => r matches Some(s) && s@ == c,
            None => r is None,
        },
{
    let cs = chars_of(out);
    let eq = find_char(cs.as_slice(), '=', 0);
    if eq >= cs.len() {
        return None;
    }
    let end = find_char(cs.as_slice(), '=', eq + 1);
    let field = crate::text::chars_from(cs.as_slice(), eq + 1, end);
    let (lo, hi) = trim_bounds(field.as_slice());
    let t = crate::text::chars_from(field.as_slice(), lo, hi);
    assert(t@ =~= trimmed(field@));
    let mut a: usize = 0;
    while a < t.len() && t[a] == '"'
        invariant
            a <= t@.len(),
            skip_from(t@, '"', 0) == skip_from(t@, '"', a as int),
        decreases t@.len() - a,
    {
        a += 1;
    }
    let mut b: usize = t.len();
    while b > a && t[b - 1] == '"'
        invariant
            a <= b <= t@.len(),
            back_from(t@, '"', a as int, t@.len() as int) == back_from(t@, '"', a as int, b as int),
        decreases b - a,
    {
        b -= 1;
    }
    let u = crate::text::chars_from(t.as_slice(), a, b);
    assert(u@ =~= trim_char(t@, '"'));
    let q = find_char(u.as_slice(), '"', 0);
    let class = string_from(u.as_slice(), 0, q);
    assert(u@.subrange(0, q as int) =~= u@.take(q as int));
    Some(class)
}

} // verus!
