//! Per-app profiles: which profile the focused application selects.

use vstd::prelude::*;

verus! {

/// ASCII lower case of a character (others unchanged).
pub open spec fn ascii_lower(c: char) -> char {
    if 'A' <= c && c <= 'Z' {
        ((c as u32) + 32) as char
    } else {
        c
    }
}

/// `str::eq_ignore_ascii_case`.
pub open spec fn eq_ignore_ascii_case(a: Seq<char>, b: Seq<char>) -> bool {
    a.len() == b.len() && forall|k: int| 0 <= k < a.len() ==> ascii_lower(#[trigger] a[k]) == ascii_lower(b[k])
}

fn lower(c: char) -> (r: char)
    ensures
        r == ascii_lower(c),
{
    if 'A' <= c && c <= 'Z' {
        ((c as u8) + 32) as char
    } else {
        c
    }
}

/// Whether the profile bound to `profile_app` is the one for `app`: a
/// profile with no app id is applied by hand only and never matches.
pub open spec fn profile_matches(profile_app: Seq<char>, app: Seq<char>) -> bool {
    profile_app.len() > 0 && eq_ignore_ascii_case(profile_app, app)
}

fn matches_app(profile_app: &str, app: &str) -> (b: bool)
    ensures
        b == profile_matches(profile_app@, app@),
{
    let a = crate::text::chars_of(profile_app);
    let b = crate::text::chars_of(app);
    if a.len() == 0 || a.len() != b.len() {
        return false;
    }
    let mut k: usize = 0;
    while k < a.len()
        invariant
            a@ == profile_app@,
            b@ == app@,
            a@.len() == b@.len(),
            k <= a@.len(),
            forall|m: int| 0 <= m < k ==> ascii_lower(#[trigger] a@[m]) == ascii_lower(b@[m]),
        decreases a@.len() - k,
    {
        if lower(a[k]) != lower(b[k]) {
            return false;
        }
        k += 1;
    }
    true
}

/// The position of the first profile whose app id matches the focused
/// application `app` (ASCII case-insensitively), if any.
pub fn find_profile_for_app(profile_apps: &Vec<String>, app: &str) -> (r: Option<usize>)
    ensures
        match r {
            Some(k) => k < profile_apps@.len() && profile_matches(profile_apps@[k as int]@, app@)
                && forall|j: int| 0 <= j < k ==> !profile_matches(profile_apps@[j]@, app@),
            None => forall|j: int|
                0 <= j < profile_apps@.len() ==> !profile_matches(profile_apps@[j]@, app@),
        },
{
    let mut k: usize = 0;
    while k < profile_apps.len()
        invariant
            k <= profile_apps@.len(),
            forall|j: int| 0 <= j < k ==> !profile_matches(profile_apps@[j]@, app@),
        decreases profile_apps@.len() - k,
    {
        if matches_app(profile_apps[k].as_str(), app) {
            return Some(k);
        }
        k += 1;
    }
    None
}

} // verus!
