//! The tray menu's item identifiers: how each item is named, and which
//! command a clicked identifier stands for.

use vstd::prelude::*;

use crate::text::{chars_from, chars_of, dec_digits, push_decimal};

verus! {

/// The brightness presets offered per monitor, highest first.
pub const BRIGHTNESS_PRESETS: [u8; 8] = [100, 80, 60, 40, 20, 10, 5, 0];

/// What a clicked tray item asks for. `SetPercent` carries the monitor id and the
/// text of the percentage.
#[derive(Debug, Clone, PartialEq, Eq)]
pub enum MenuCommand {
    Show,
    Quit,
    AllUp,
    AllDown,
    ToggleNight,
    Profile(String),
    Up(String),
    Down(String),
    SetPercent(String, String),
    Unknown,
}

/// The same as [`MenuCommand`], as mathematical values.
pub enum MenuCommandView {
    Show,
    Quit,
    AllUp,
    AllDown,
    ToggleNight,
    Profile(Seq<char>),
    Up(Seq<char>),
    Down(Seq<char>),
    SetPercent(Seq<char>, Seq<char>),
    Unknown,
}

impl View for MenuCommand {
    type V = MenuCommandView;

    open spec fn view(&self) -> MenuCommandView {
        match self {
            MenuCommand::Show => MenuCommandView::Show,
            MenuCommand::Quit => MenuCommandView::Quit,
            MenuCommand::AllUp => MenuCommandView::AllUp,
            MenuCommand::AllDown => MenuCommandView::AllDown,
            MenuCommand::ToggleNight => MenuCommandView::ToggleNight,
            MenuCommand::Profile(p) => MenuCommandView::Profile(p@),
            MenuCommand::Up(m) => MenuCommandView::Up(m@),
            MenuCommand::Down(m) => MenuCommandView::Down(m@),
            MenuCommand::SetPercent(m, v) => MenuCommandView::SetPercent(m@, v@),
            MenuCommand::Unknown => MenuCommandView::Unknown,
        }
    }
}

/// Index of the first `::` in `s` at or after `i`, if any.
pub open spec fn first_double_colon(s: Seq<char>, i: int) -> Option<int>
    decreases s.len() - i,
{
    if i < 0 || i + 1 >= s.len() {
        None
    } else if s[i] == ':' && s[i + 1] == ':' {
        Some(i)
    } else {
        first_double_colon(s, i + 1)
    }
}

/// The command an item identifier stands for.
pub open spec fn menu_command_of(id: Seq<char>) -> MenuCommandView {
    if id == "show"@ {
        MenuCommandView::Show
    } else if id == "quit"@ {
        MenuCommandView::Quit
    } else if id == "all-up"@ {
        MenuCommandView::AllUp
    } else if id == "all-down"@ {
        MenuCommandView::AllDown
    } else if id == "toggle-night"@ {
        MenuCommandView::ToggleNight
    } else if "profile:"@.is_prefix_of(id) {
        MenuCommandView::Profile(id.skip(8))
    } else if "up:"@.is_prefix_of(id) {
        MenuCommandView::Up(id.skip(3))
    } else if "down:"@.is_prefix_of(id) {
        MenuCommandView::Down(id.skip(5))
    } else if "set:"@.is_prefix_of(id) {
        let rest = id.skip(4);
        match first_double_colon(rest, 0) {
            Some(k) => MenuCommandView::SetPercent(rest.take(k), rest.skip(k + 2)),
            None => MenuCommandView::Unknown,
        }
    } else {
        MenuCommandView::Unknown
    }
}

fn has_prefix(v: &[char], p: &str) -> (b: bool)
    ensures
        b == p@.is_prefix_of(v@),
{
    let pv = chars_of(p);
    if pv.len() > v.len() {
        return false;
    }
    let mut k: usize = 0;
    while k < pv.len()
        invariant
            pv@ == p@,
            pv@.len() <= v@.len(),
            k <= pv@.len(),
            forall|m: int| 0 <= m < k ==> v@[m] == pv@[m],
        decreases pv@.len() - k,
    {
        if v[k] != pv[k] {
            assert(v@.subrange(0, pv@.len() as int)[k as int] != pv@[k as int]);
            return false;
        }
        k += 1;
    }
    assert(v@.subrange(0, pv@.len() as int) =~= pv@);
    true
}

fn string_of(v: &[char], a: usize) -> (s: String)
    requires
        a <= v@.len(),
    ensures
        s@ == v@.skip(a as int),
{
    let s = crate::text::string_from(v, a, v.len());
    assert(v@.subrange(a as int, v@.len() as int) =~= v@.skip(a as int));
    s
}

/// Which command a clicked item identifier stands for.
pub fn parse_menu_id(id: &str) -> (cmd: MenuCommand)
    ensures
        cmd@ == menu_command_of(id@),
{
    let v = chars_of(id);
    let s = v.as_slice();
    proof {
        reveal_strlit("profile:");
        reveal_strlit("up:");
        reveal_strlit("down:");
        reveal_strlit("set:");
    }
    if crate::text::chars_eq(s, "show") {
        MenuCommand::Show
    } else if crate::text::chars_eq(s, "quit") {
        MenuCommand::Quit
    } else if crate::text::chars_eq(s, "all-up") {
        MenuCommand::AllUp
    } else if crate::text::chars_eq(s, "all-down") {
        MenuCommand::AllDown
    } else if crate::text::chars_eq(s, "toggle-night") {
        MenuCommand::ToggleNight
    } else if has_prefix(s, "profile:") {
        MenuCommand::Profile(string_of(s, 8))
    } else if has_prefix(s, "up:") {
        MenuCommand::Up(string_of(s, 3))
    } else if has_prefix(s, "down:") {
        MenuCommand::Down(string_of(s, 5))
    } else if has_prefix(s, "set:") {
        let rest = chars_from(s, 4, s.len());
        assert(rest@ =~= v@.skip(4));
        let mut k: usize = 0;
        while rest.len() > 0 && k < rest.len() - 1 && !(rest[k] == ':' && rest[k + 1] == ':')
            invariant
                k <= rest@.len(),
                first_double_colon(rest@, 0) == first_double_colon(rest@, k as int),
            decreases rest@.len() - k,
        {
            k += 1;
        }
        if rest.len() > 0 && k < rest.len() - 1 {
            let monitor = crate::text::string_from(rest.as_slice(), 0, k);
            let value = string_of(rest.as_slice(), k + 2);
            assert(rest@.subrange(0, k as int) =~= rest@.take(k as int));
            MenuCommand::SetPercent(monitor, value)
        } else {
            MenuCommand::Unknown
        }
    } else {
        MenuCommand::Unknown
    }
}

/// The identifier of the item that sets monitor `monitor_id` to `percent`.
pub fn set_item_id(monitor_id: &str, percent: u8) -> (id: String)
    ensures
        id@ == "set:"@ + monitor_id@ + "::"@ + dec_digits(percent as nat),
{
    let mut id = "set:".to_owned();
    id.append(monitor_id);
    id.append("::");
    push_decimal(&mut id, percent as u64);
    id
}

/// The identifier of the item that steps monitor `monitor_id` up.
pub fn up_item_id(monitor_id: &str) -> (id: String)
    ensures
        id@ == "up:"@ + monitor_id@,
{
    let mut id = "up:".to_owned();
    id.append(monitor_id);
    id
}

/// The identifier of the item that steps monitor `monitor_id` down.
pub fn down_item_id(monitor_id: &str) -> (id: String)
    ensures
        id@ == "down:"@ + monitor_id@,
{
    let mut id = "down:".to_owned();
    id.append(monitor_id);
    id
}

/// The identifier of the item that applies profile `profile_id`.
pub fn profile_item_id(profile_id: &str) -> (id: String)
    ensures
        id@ == "profile:"@ + profile_id@,
{
    let mut id = "profile:".to_owned();
    id.append(profile_id);
    id
}

} // verus!

verus! {

pub open spec fn double_colon_at(s: Seq<char>, i: int) -> bool {
    0 <= i && i + 1 < s.len() && s[i] == ':' && s[i + 1] == ':'
}

pub open spec fn has_double_colon(s: Seq<char>) -> bool {
    exists|i: int| #[trigger] double_colon_at(s, i)
}

proof fn lemma_first_double_colon(m: Seq<char>, tail: Seq<char>, i: int)
    requires
        0 <= i <= m.len(),
        !has_double_colon(m),
        m.len() == 0 || m.last() != ':',
        tail.len() >= 2 && tail[0] == ':' && tail[1] == ':',
    ensures
        first_double_colon(m + tail, i) == Some(m.len() as int),
    decreases m.len() - i,
{
    let s = m + tail;
    if i < m.len() {
        if s[i] == ':' && s[i + 1] == ':' {
            if i + 1 < m.len() {
                assert(m[i] == ':' && m[i + 1] == ':');
                assert(double_colon_at(m, i));
                assert(has_double_colon(m));
            } else {
                assert(m.last() == ':');
            }
        }
        lemma_first_double_colon(m, tail, i + 1);
    }
}

proof fn lemma_prefixed(p: Seq<char>, rest: Seq<char>)
    ensures
        p.is_prefix_of(p + rest),
        (p + rest).skip(p.len() as int) == rest,
{
    assert((p + rest).subrange(0, p.len() as int) =~= p);
    assert((p + rest).skip(p.len() as int) =~= rest);
}

/// Identifiers starting with `u`, `d` or `p` are none of the fixed items.
proof fn lemma_not_fixed(s: Seq<char>)
    requires
        s.len() >= 2,
        s[0] == 'u' || s[0] == 'd' || s[0] == 'p' || (s[0] == 's' && s[1] == 'e'),
    ensures
        s != "show"@ && s != "quit"@ && s != "all-up"@ && s != "all-down"@ && s != "toggle-night"@,
{
    reveal_strlit("show");
    reveal_strlit("quit");
    reveal_strlit("all-up");
    reveal_strlit("all-down");
    reveal_strlit("toggle-night");
    if s == "show"@ {
        assert(s[1] == 'h');
    }
}

proof fn lemma_not_prefix(p: Seq<char>, s: Seq<char>)
    requires
        p.len() > 0,
        s.len() > 0,
        p[0] != s[0],
    ensures
        !p.is_prefix_of(s),
{
    if p.is_prefix_of(s) {
        assert(s[0] == p[0]);
    }
}

proof fn lemma_up_roundtrip(m: Seq<char>)
    ensures
        menu_command_of("up:"@ + m) == MenuCommandView::Up(m),
{
    reveal_strlit("up:");
    reveal_strlit("profile:");
    let s = "up:"@ + m;
    lemma_prefixed("up:"@, m);
    lemma_not_fixed(s);
    lemma_not_prefix("profile:"@, s);
}

proof fn lemma_down_roundtrip(m: Seq<char>)
    ensures
        menu_command_of("down:"@ + m) == MenuCommandView::Down(m),
{
    reveal_strlit("down:");
    reveal_strlit("up:");
    reveal_strlit("profile:");
    let s = "down:"@ + m;
    lemma_prefixed("down:"@, m);
    lemma_not_fixed(s);
    lemma_not_prefix("profile:"@, s);
    lemma_not_prefix("up:"@, s);
}

proof fn lemma_profile_roundtrip(p: Seq<char>)
    ensures
        menu_command_of("profile:"@ + p) == MenuCommandView::Profile(p),
{
    reveal_strlit("profile:");
    let s = "profile:"@ + p;
    lemma_prefixed("profile:"@, p);
    lemma_not_fixed(s);
}

proof fn lemma_set_roundtrip(m: Seq<char>, d: Seq<char>)
    requires
        !has_double_colon(m),
        m.len() == 0 || m.last() != ':',
    ensures
        menu_command_of("set:"@ + m + "::"@ + d) == MenuCommandView::SetPercent(m, d),
{
    reveal_strlit("set:");
    reveal_strlit("::");
    reveal_strlit("up:");
    reveal_strlit("down:");
    reveal_strlit("profile:");
    let tail = "::"@ + d;
    let s = "set:"@ + m + "::"@ + d;
    assert(s =~= "set:"@ + (m + tail));
    lemma_prefixed("set:"@, m + tail);
    lemma_not_fixed(s);
    lemma_not_prefix("profile:"@, s);
    lemma_not_prefix("up:"@, s);
    lemma_not_prefix("down:"@, s);
    lemma_first_double_colon(m, tail, 0);
    assert((m + tail).take(m.len() as int) =~= m);
    assert((m + tail).skip(m.len() as int + 2) =~= d);
}

/// Every item identifier the tray builds is read back as the command it was
/// built for: `up:`, `down:` and `profile:` items for any id, and `set:`
/// items for monitor ids that neither contain `::` nor end in `:` (the
/// reader splits `set:` identifiers at their first `::`).
pub proof fn menu_ids_roundtrip(monitor_id: Seq<char>, profile_id: Seq<char>, percent: u8)
    ensures
        menu_command_of("up:"@ + monitor_id) == MenuCommandView::Up(monitor_id),
        menu_command_of("down:"@ + monitor_id) == MenuCommandView::Down(monitor_id),
        menu_command_of("profile:"@ + profile_id) == MenuCommandView::Profile(profile_id),
        !has_double_colon(monitor_id) && (monitor_id.len() == 0 || monitor_id.last() != ':')
            ==> menu_command_of("set:"@ + monitor_id + "::"@ + dec_digits(percent as nat))
            == MenuCommandView::SetPercent(monitor_id, dec_digits(percent as nat)),
{
    lemma_up_roundtrip(monitor_id);
    lemma_down_roundtrip(monitor_id);
    lemma_profile_roundtrip(profile_id);
    if !has_double_colon(monitor_id) && (monitor_id.len() == 0 || monitor_id.last() != ':') {
        lemma_set_roundtrip(monitor_id, dec_digits(percent as nat));
    }
}

} // verus!
