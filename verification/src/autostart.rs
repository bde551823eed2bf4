//! Elevated autostart through the Windows Task Scheduler: the task's
//! definition and the `schtasks` command lines, and the answer on platforms
//! that have no Task Scheduler.

use vstd::prelude::*;

use crate::text::{chars_of, push_char};

verus! {

/// Stable Task Scheduler task name.
pub const TASK_NAME: &'static str = "MonitorBrightnessControl-AdminAutostart";

/// Whether the elevated autostart task exists. Without a Task Scheduler
/// this is refused, as every operation of this module is.
pub fn status() -> (r: Result<bool, String>)
    ensures
        r matches Err(m) && m@ == unsupported_message(),
{
    Err("administrator autostart via Task Scheduler is only available on Windows".to_owned())
}

pub open spec fn unsupported_message() -> Seq<char> {
    "administrator autostart via Task Scheduler is only available on Windows"@
}

/// Enable or disable the elevated autostart task. Without a Task Scheduler
/// this is refused.
pub fn set(enabled: bool) -> (r: Result<(), String>)
    ensures
        r matches Err(m) && m@ == unsupported_message(),
{
    let _ = enabled;
    Err("administrator autostart via Task Scheduler is only available on Windows".to_owned())
}

/// The XML escape of one character.
pub open spec fn xml_escape_char(c: char) -> Seq<char> {
    if c == '&' {
        "&amp;"@
    } else if c == '<' {
        "&lt;"@
    } else if c == '>' {
        "&gt;"@
    } else if c == '"' {
        "&quot;"@
    } else if c == '\'' {
        "&apos;"@
    } else {
        seq![c]
    }
}

/// `s` with the five XML special characters replaced by their entities.
pub open spec fn xml_escaped(s: Seq<char>) -> Seq<char>
    decreases s.len(),
{
    if s.len() == 0 {
        Seq::empty()
    } else {
        xml_escaped(s.drop_last()) + xml_escape_char(s.last())
    }
}

/// An escaped text holds none of `<`, `>`, `"` and `'`, so it can stand in
/// element content and in attribute values.
pub proof fn escaped_has_no_markup(s: Seq<char>)
    ensures
        forall|i: int|
            0 <= i < xml_escaped(s).len() ==> {
                let c = #[trigger] xml_escaped(s)[i];
                c != '<' && c != '>' && c != '"' && c != '\''
            },
    decreases s.len(),
{
    if s.len() > 0 {
        escaped_has_no_markup(s.drop_last());
        let a = xml_escaped(s.drop_last());
        let b = xml_escape_char(s.last());
        reveal_strlit("&amp;");
        reveal_strlit("&lt;");
        reveal_strlit("&gt;");
        reveal_strlit("&quot;");
        reveal_strlit("&apos;");
        assert forall|i: int| 0 <= i < (a + b).len() implies {
            let c = #[trigger] (a + b)[i];
            c != '<' && c != '>' && c != '"' && c != '\''
        } by {
            if i >= a.len() {
                assert((a + b)[i] == b[i - a.len()]);
            } else {
                assert((a + b)[i] == a[i]);
            }
        }
    }
}

/// `t` starts with the characters of `p`.
pub open spec fn starts_with(t: Seq<char>, p: Seq<char>) -> bool {
    p.len() <= t.len() && t.take(p.len() as int) == p
}

/// `t` with the five XML entities of [`xml_escape_char`] read back as the
/// characters they stand for, left to right.
pub open spec fn xml_unescaped(t: Seq<char>) -> Seq<char>
    decreases t.len(),
{
    if t.len() == 0 {
        Seq::empty()
    } else if t.len() >= 5 && starts_with(t, "&amp;"@) {
        seq!['&'] + xml_unescaped(t.skip(5))
    } else if t.len() >= 4 && starts_with(t, "&lt;"@) {
        seq!['<'] + xml_unescaped(t.skip(4))
    } else if t.len() >= 4 && starts_with(t, "&gt;"@) {
        seq!['>'] + xml_unescaped(t.skip(4))
    } else if t.len() >= 6 && starts_with(t, "&quot;"@) {
        seq!['"'] + xml_unescaped(t.skip(6))
    } else if t.len() >= 6 && starts_with(t, "&apos;"@) {
        seq!['\''] + xml_unescaped(t.skip(6))
    } else {
        seq![t[0]] + xml_unescaped(t.skip(1))
    }
}

proof fn lemma_unescape_char(c: char, t: Seq<char>)
    ensures
        xml_unescaped(xml_escape_char(c) + t) == seq![c] + xml_unescaped(t),
{
    reveal_strlit("&amp;");
    reveal_strlit("&lt;");
    reveal_strlit("&gt;");
    reveal_strlit("&quot;");
    reveal_strlit("&apos;");
    let e = xml_escape_char(c);
    let u = e + t;
    assert(u.skip(e.len() as int) =~= t);
    assert(u.take(e.len() as int) =~= e);
    if c == '&' {
    } else if c == '<' {
        assert(u[1] == 'l');
        assert(!starts_with(u, "&amp;"@)) by {
            if starts_with(u, "&amp;"@) {
                assert(u.take(5)[1] == 'a');
            }
        }
    } else if c == '>' {
        assert(u[1] == 'g');
        assert(!starts_with(u, "&amp;"@)) by {
            if starts_with(u, "&amp;"@) {
                assert(u.take(5)[1] == 'a');
            }
        }
        assert(!starts_with(u, "&lt;"@)) by {
            if starts_with(u, "&lt;"@) {
                assert(u.take(4)[1] == 'l');
            }
        }
    } else if c == '"' {
        assert(u[1] == 'q');
        assert(!starts_with(u, "&amp;"@)) by {
            if starts_with(u, "&amp;"@) {
                assert(u.take(5)[1] == 'a');
            }
        }
        assert(!starts_with(u, "&lt;"@)) by {
            if starts_with(u, "&lt;"@) {
                assert(u.take(4)[1] == 'l');
            }
        }
        assert(!starts_with(u, "&gt;"@)) by {
            if starts_with(u, "&gt;"@) {
                assert(u.take(4)[1] == 'g');
            }
        }
    } else if c == '\'' {
        assert(u[1] == 'a' && u[2] == 'p');
        assert(!starts_with(u, "&amp;"@)) by {
            if starts_with(u, "&amp;"@) {
                assert(u.take(5)[2] == 'm');
            }
        }
        assert(!starts_with(u, "&lt;"@)) by {
            if starts_with(u, "&lt;"@) {
                assert(u.take(4)[1] == 'l');
            }
        }
        assert(!starts_with(u, "&gt;"@)) by {
            if starts_with(u, "&gt;"@) {
                assert(u.take(4)[1] == 'g');
            }
        }
        assert(!starts_with(u, "&quot;"@)) by {
            if starts_with(u, "&quot;"@) {
                assert(u.take(6)[1] == 'q');
            }
        }
    } else {
        assert(u[0] == c);
        assert(!starts_with(u, "&amp;"@)) by {
            if starts_with(u, "&amp;"@) {
                assert(u.take(5)[0] == '&');
            }
        }
        assert(!starts_with(u, "&lt;"@)) by {
            if starts_with(u, "&lt;"@) {
                assert(u.take(4)[0] == '&');
            }
        }
        assert(!starts_with(u, "&gt;"@)) by {
            if starts_with(u, "&gt;"@) {
                assert(u.take(4)[0] == '&');
            }
        }
        assert(!starts_with(u, "&quot;"@)) by {
            if starts_with(u, "&quot;"@) {
                assert(u.take(6)[0] == '&');
            }
        }
        assert(!starts_with(u, "&apos;"@)) by {
            if starts_with(u, "&apos;"@) {
                assert(u.take(6)[0] == '&');
            }
        }
    }
}

proof fn lemma_unescape_prefix(a: Seq<char>, t: Seq<char>)
    ensures
        xml_unescaped(xml_escaped(a) + t) == a + xml_unescaped(t),
    decreases a.len(),
{
    if a.len() == 0 {
        assert(xml_escaped(a) + t =~= t);
        assert(a + xml_unescaped(t) =~= xml_unescaped(t));
    } else {
        let b = a.drop_last();
        let c = a.last();
        lemma_unescape_char(c, t);
        lemma_unescape_prefix(b, xml_escape_char(c) + t);
        assert(xml_escaped(a) + t =~= xml_escaped(b) + (xml_escape_char(c) + t));
        assert(b + (seq![c] + xml_unescaped(t)) =~= a + xml_unescaped(t));
    }
}

/// Escaping loses nothing: reading the entities back gives the text that
/// was escaped.
pub proof fn escape_roundtrip(s: Seq<char>)
    ensures
        xml_unescaped(xml_escaped(s)) == s,
{
    lemma_unescape_prefix(s, Seq::empty());
    assert(xml_escaped(s) + Seq::<char>::empty() =~= xml_escaped(s));
    assert(s + Seq::<char>::empty() =~= s);
}

/// `t` with every occurrence of `p` replaced by `r`, scanning left to right
/// without overlaps (as `str::replace` does).
pub open spec fn replace_all(t: Seq<char>, p: Seq<char>, r: Seq<char>) -> Seq<char>
    decreases t.len(),
{
    if t.len() == 0 {
        Seq::empty()
    } else if p.len() > 0 && starts_with(t, p) {
        r + replace_all(t.skip(p.len() as int), p, r)
    } else {
        seq![t[0]] + replace_all(t.skip(1), p, r)
    }
}

/// `t` with `&apos;`, `&quot;`, `&gt;` and `&lt;` replaced by the characters
/// they stand for, and then `&amp;` by `&`.
pub open spec fn xml_unescaped_by_replacing(t: Seq<char>) -> Seq<char> {
    replace_all(
        replace_all(
            replace_all(replace_all(replace_all(t, "&apos;"@, "'"@), "&quot;"@, "\""@), "&gt;"@, ">"@),
            "&lt;"@,
            "<"@,
        ),
        "&amp;"@,
        "&"@,
    )
}

pub open spec fn is_xml_special(c: char) -> bool {
    c == '&' || c == '<' || c == '>' || c == '"' || c == '\''
}

/// The character that the `k`-th replacement of
/// [`xml_unescaped_by_replacing`] restores (0: `'`, 1: `"`, 2: `>`, 3: `<`, 4: `&`).
pub open spec fn restored(k: int) -> char {
    if k == 0 {
        '\''
    } else if k == 1 {
        '"'
    } else if k == 2 {
        '>'
    } else if k == 3 {
        '<'
    } else {
        '&'
    }
}

/// The text that character `c` stands as after the first `k` replacements.
pub open spec fn stage(c: char, k: int) -> Seq<char> {
    if exists|j: int| 0 <= j < k && restored(j) == c {
        seq![c]
    } else {
        xml_escape_char(c)
    }
}

pub open spec fn staged(s: Seq<char>, k: int) -> Seq<char>
    decreases s.len(),
{
    if s.len() == 0 {
        Seq::empty()
    } else {
        staged(s.drop_last(), k) + stage(s.last(), k)
    }
}

proof fn lemma_entities()
    ensures
        xml_escape_char('&') == seq!['&', 'a', 'm', 'p', ';'],
        xml_escape_char('<') == seq!['&', 'l', 't', ';'],
        xml_escape_char('>') == seq!['&', 'g', 't', ';'],
        xml_escape_char('"') == seq!['&', 'q', 'u', 'o', 't', ';'],
        xml_escape_char('\'') == seq!['&', 'a', 'p', 'o', 's', ';'],
        "&amp;"@ == xml_escape_char('&'),
        "&lt;"@ == xml_escape_char('<'),
        "&gt;"@ == xml_escape_char('>'),
        "&quot;"@ == xml_escape_char('"'),
        "&apos;"@ == xml_escape_char('\''),
        "&"@ == seq!['&'],
        "<"@ == seq!['<'],
        ">"@ == seq!['>'],
        "\""@ == seq!['"'],
        "'"@ == seq!['\''],
{
    reveal_strlit("&amp;");
    reveal_strlit("&lt;");
    reveal_strlit("&gt;");
    reveal_strlit("&quot;");
    reveal_strlit("&apos;");
    reveal_strlit("&");
    reveal_strlit("<");
    reveal_strlit(">");
    reveal_strlit("\"");
    reveal_strlit("'");
    assert("&amp;"@ =~= seq!['&', 'a', 'm', 'p', ';']);
    assert("&lt;"@ =~= seq!['&', 'l', 't', ';']);
    assert("&gt;"@ =~= seq!['&', 'g', 't', ';']);
    assert("&quot;"@ =~= seq!['&', 'q', 'u', 'o', 't', ';']);
    assert("&apos;"@ =~= seq!['&', 'a', 'p', 'o', 's', ';']);
    assert("&"@ =~= seq!['&']);
    assert("<"@ =~= seq!['<']);
    assert(">"@ =~= seq!['>']);
    assert("\""@ =~= seq!['"']);
    assert("'"@ =~= seq!['\'']);
}

/// Text without `&` passes through a replacement of a pattern that starts with `&`.
proof fn lemma_replace_no_amp(w: Seq<char>, t: Seq<char>, p: Seq<char>, r: Seq<char>)
    requires
        p.len() > 0,
        p[0] == '&',
        forall|i: int| 0 <= i < w.len() ==> w[i] != '&',
    ensures
        replace_all(w + t, p, r) == w + replace_all(t, p, r),
    decreases w.len(),
{
    if w.len() > 0 {
        let u = w + t;
        assert(!starts_with(u, p)) by {
            if starts_with(u, p) {
                assert(u.take(p.len() as int)[0] == p[0]);
            }
        }
        lemma_replace_no_amp(w.skip(1), t, p, r);
        assert(u.skip(1) =~= w.skip(1) + t);
        assert(seq![u[0]] + (w.skip(1) + replace_all(t, p, r)) =~= w + replace_all(t, p, r));
    } else {
        assert(w + t =~= t);
        assert(w + replace_all(t, p, r) =~= replace_all(t, p, r));
    }
}

/// One character's text after the `k`-th replacement.
proof fn lemma_replace_stage(c: char, k: int, t: Seq<char>)
    requires
        0 <= k < 5,
    ensures
        replace_all(stage(c, k) + t, xml_escape_char(restored(k)), seq![restored(k)]) == stage(c, k + 1)
            + replace_all(t, xml_escape_char(restored(k)), seq![restored(k)]),
{
    lemma_entities();
    let p = xml_escape_char(restored(k));
    let r = seq![restored(k)];
    let q = stage(c, k);
    let u = q + t;
    let was_restored = exists|j: int| 0 <= j < k && restored(j) == c;
    if was_restored {
        let j = choose|j: int| 0 <= j < k && restored(j) == c;
        assert(exists|j2: int| 0 <= j2 < k + 1 && restored(j2) == c) by {
            assert(0 <= j < k + 1 && restored(j) == c);
        }
        assert(q == seq![c]);
        assert(stage(c, k + 1) == seq![c]);
        assert(c != '&') by {
            if c == '&' {
                assert(restored(j) == '&');
            }
        }
        lemma_replace_no_amp(q, t, p, r);
    } else if c == restored(k) {
        assert(q == p);
        assert(exists|j2: int| 0 <= j2 < k + 1 && restored(j2) == c) by {
            assert(0 <= k < k + 1 && restored(k) == c);
        }
        assert(stage(c, k + 1) == r);
        assert(u.take(p.len() as int) =~= p);
        assert(u.skip(p.len() as int) =~= t);
    } else {
        assert(!exists|j2: int| 0 <= j2 < k + 1 && restored(j2) == c) by {
            if exists|j2: int| 0 <= j2 < k + 1 && restored(j2) == c {
                let j2 = choose|j2: int| 0 <= j2 < k + 1 && restored(j2) == c;
                if j2 < k {
                    assert(exists|j: int| 0 <= j < k && restored(j) == c);
                }
            }
        }
        assert(stage(c, k + 1) == q);
        assert(q == xml_escape_char(c));
        if is_xml_special(c) {
            assert(!starts_with(u, p)) by {
                if starts_with(u, p) {
                    assert(u.take(p.len() as int)[1] == p[1]);
                    assert(u.take(p.len() as int)[2] == p[2]);
                    assert(u[1] == q[1] && u[2] == q[2]);
                }
            }
            let w = q.skip(1);
            lemma_replace_no_amp(w, t, p, r);
            assert(u.skip(1) =~= w + t);
            assert(seq![u[0]] + (w + replace_all(t, p, r)) =~= q + replace_all(t, p, r));
        } else {
            lemma_replace_no_amp(q, t, p, r);
        }
    }
}

proof fn lemma_replace_staged(s: Seq<char>, k: int, t: Seq<char>)
    requires
        0 <= k < 5,
    ensures
        replace_all(staged(s, k) + t, xml_escape_char(restored(k)), seq![restored(k)]) == staged(s, k + 1)
            + replace_all(t, xml_escape_char(restored(k)), seq![restored(k)]),
    decreases s.len(),
{
    let p = xml_escape_char(restored(k));
    let r = seq![restored(k)];
    if s.len() == 0 {
        assert(staged(s, k) + t =~= t);
        assert(staged(s, k + 1) + replace_all(t, p, r) =~= replace_all(t, p, r));
    } else {
        let b = s.drop_last();
        let c = s.last();
        lemma_replace_stage(c, k, t);
        lemma_replace_staged(b, k, stage(c, k) + t);
        assert(staged(s, k) + t =~= staged(b, k) + (stage(c, k) + t));
        assert(staged(b, k + 1) + (stage(c, k + 1) + replace_all(t, p, r)) =~= staged(s, k + 1) + replace_all(
            t,
            p,
            r,
        ));
    }
}

proof fn lemma_staged_ends(s: Seq<char>)
    ensures
        staged(s, 0) == xml_escaped(s),
        staged(s, 5) == s,
    decreases s.len(),
{
    if s.len() > 0 {
        lemma_staged_ends(s.drop_last());
        let c = s.last();
        assert(!exists|j: int| 0 <= j < 0 && restored(j) == c);
        if is_xml_special(c) {
            let j = if c == '\'' { 0int } else if c == '"' { 1int } else if c == '>' { 2int } else if c == '<' { 3int } else { 4int };
            assert(0 <= j < 5 && restored(j) == c);
        }
        assert(stage(c, 5) == seq![c]);
        assert(s.drop_last().push(c) =~= s);
    }
}

/// Escaping loses nothing, read back the way the entities are commonly
/// replaced one after the other: `&apos;`, `&quot;`, `&gt;` and `&lt;` first,
/// `&amp;` last (so `&amp;lt;` reads back as `&lt;`, never as `<`).
pub proof fn escape_roundtrip_by_replacing(s: Seq<char>)
    ensures
        xml_unescaped_by_replacing(xml_escaped(s)) == s,
{
    lemma_entities();
    lemma_staged_ends(s);
    let e = Seq::<char>::empty();
    assert forall|k: int| 0 <= k < 5 implies #[trigger] replace_all(
        staged(s, k),
        xml_escape_char(restored(k)),
        seq![restored(k)],
    ) == staged(s, k + 1) by {
        lemma_replace_staged(s, k, e);
        assert(staged(s, k) + e =~= staged(s, k));
        assert(staged(s, k + 1) + replace_all(e, xml_escape_char(restored(k)), seq![restored(k)]) =~= staged(
            s,
            k + 1,
        ));
    }
    assert(replace_all(staged(s, 0), xml_escape_char(restored(0)), seq![restored(0)]) == staged(s, 1));
    assert(replace_all(staged(s, 1), xml_escape_char(restored(1)), seq![restored(1)]) == staged(s, 2));
    assert(replace_all(staged(s, 2), xml_escape_char(restored(2)), seq![restored(2)]) == staged(s, 3));
    assert(replace_all(staged(s, 3), xml_escape_char(restored(3)), seq![restored(3)]) == staged(s, 4));
    assert(replace_all(staged(s, 4), xml_escape_char(restored(4)), seq![restored(4)]) == staged(s, 5));
}

/// Escape XML special characters.
pub fn xml_escape(s: &str) -> (out: String)
    ensures
        out@ == xml_escaped(s@),
{
    let cs = chars_of(s);
    let mut out = String::new();
    let mut i: usize = 0;
    while i < cs.len()
        invariant
            i <= cs@.len(),
            cs@ == s@,
            out@ == xml_escaped(cs@.take(i as int)),
        decreases cs@.len() - i,
    {
        let c = cs[i];
        if c == '&' {
            out.append("&amp;");
        } else if c == '<' {
            out.append("&lt;");
        } else if c == '>' {
            out.append("&gt;");
        } else if c == '"' {
            out.append("&quot;");
        } else if c == '\'' {
            out.append("&apos;");
        } else {
            push_char(&mut out, c);
        }
        assert(cs@.take(i + 1).drop_last() =~= cs@.take(i as int));
        i += 1;
    }
    assert(cs@.take(cs@.len() as int) =~= cs@);
    out
}

/// The task definition up to the executable path.
pub const TASK_XML_HEAD: &'static str = "<?xml version=\"1.0\" encoding=\"UTF-16\"?>
<Task version=\"1.2\" xmlns=\"http://schemas.microsoft.com/windows/2004/02/mit/task\">
  <RegistrationInfo>
    <Description>Monitor Brightness Control — launch at sign-in with the highest available privileges.</Description>
  </RegistrationInfo>
  <Triggers>
    <LogonTrigger>
      <Enabled>true</Enabled>
    </LogonTrigger>
  </Triggers>
  <Principals>
    <Principal id=\"Author\">
      <LogonType>InteractiveToken</LogonType>
      <RunLevel>HighestAvailable</RunLevel>
    </Principal>
  </Principals>
  <Settings>
    <MultipleInstancesPolicy>IgnoreNew</MultipleInstancesPolicy>
    <DisallowStartIfOnBatteries>false</DisallowStartIfOnBatteries>
    <StopIfGoingOnBatteries>false</StopIfGoingOnBatteries>
    <AllowHardTerminate>true</AllowHardTerminate>
    <StartWhenAvailable>true</StartWhenAvailable>
    <RunOnlyIfNetworkAvailable>false</RunOnlyIfNetworkAvailable>
    <IdleSettings>
      <StopOnIdleEnd>false</StopOnIdleEnd>
      <RestartOnIdle>false</RestartOnIdle>
    </IdleSettings>
    <AllowStartOnDemand>true</AllowStartOnDemand>
    <Enabled>true</Enabled>
    <Hidden>false</Hidden>
    <RunOnlyIfIdle>false</RunOnlyIfIdle>
    <WakeToRun>false</WakeToRun>
    <ExecutionTimeLimit>PT0S</ExecutionTimeLimit>
    <Priority>5</Priority>
  </Settings>
  <Actions Context=\"Author\">
    <Exec>
      <Command>";

/// The task definition after the executable path.
pub const TASK_XML_TAIL: &'static str = "</Command>
      <Arguments>--minimized</Arguments>
    </Exec>
  </Actions>
</Task>
";

/// The Task Scheduler 1.2 definition of a logon task that runs `exe_path`
/// with the highest available privileges and `--minimized`.
pub fn build_task_xml(exe_path: &str) -> (xml: String)
    ensures
        xml@ == TASK_XML_HEAD@ + xml_escaped(exe_path@) + TASK_XML_TAIL@,
{
    // Escape XML special characters in the path.
    let cmd = xml_escape(exe_path);
    let mut xml = TASK_XML_HEAD.to_owned();
    xml.append(cmd.as_str());
    xml.append(TASK_XML_TAIL);
    xml
}

/// The `schtasks.exe` parameters that register the task from its XML file.
pub fn create_task_params(xml_path: &str) -> (p: String)
    ensures
        p@ == "/Create /TN \""@ + TASK_NAME@ + "\" /XML \""@ + xml_path@ + "\" /F"@,
{
    let mut p = "/Create /TN \"".to_owned();
    p.append(TASK_NAME);
    p.append("\" /XML \"");
    p.append(xml_path);
    p.append("\" /F");
    p
}

/// The `schtasks.exe` parameters that delete the task.
pub fn delete_task_params() -> (p: String)
    ensures
        p@ == "/Delete /TN \""@ + TASK_NAME@ + "\" /F"@,
{
    let mut p = "/Delete /TN \"".to_owned();
    p.append(TASK_NAME);
    p.append("\" /F");
    p
}

/// The bytes of a UTF-16LE file with byte-order mark holding `units`.
pub open spec fn utf16le_file(units: Seq<u16>) -> Seq<u8>
    decreases units.len(),
{
    if units.len() == 0 {
        seq![0xFFu8, 0xFEu8]
    } else {
        utf16le_file(units.drop_last()) + seq![
            (units.last() % 256) as u8,
            (units.last() / 256) as u8,
        ]
    }
}

/// Encode UTF-16 code units as a UTF-16LE file with byte-order mark, as
/// `schtasks /XML` expects.
pub fn utf16le_with_bom(units: &[u16]) -> (bytes: Vec<u8>)
    ensures
        bytes@ == utf16le_file(units@),
{
    let mut bytes: Vec<u8> = Vec::new();
    bytes.push(0xFF);
    bytes.push(0xFE);
    let mut i: usize = 0;
    assert(bytes@ =~= utf16le_file(units@.take(0)));
    while i < units.len()
        invariant
            i <= units@.len(),
            bytes@ == utf16le_file(units@.take(i as int)),
        decreases units@.len() - i,
    {
        let u = units[i];
        bytes.push((u % 256) as u8);
        bytes.push((u / 256) as u8);
        assert(units@.take(i + 1).drop_last() =~= units@.take(i as int));
        i += 1;
        assert(bytes@ =~= utf16le_file(units@.take(i as int)));
    }
    assert(units@.take(units@.len() as int) =~= units@);
    bytes
}

/// The UTF-16 code units of one character: itself below U+10000, else a
/// surrogate pair.
pub open spec fn utf16_char(c: char) -> Seq<u16> {
    let u = c as u32;
    if u < 0x10000 {
        seq![u as u16]
    } else {
        let v = u - 0x10000;
        seq![(0xD800 + v / 1024) as u16, (0xDC00 + v % 1024) as u16]
    }
}

/// The UTF-16 encoding of a text (what `str::encode_utf16` yields).
pub open spec fn utf16_of(s: Seq<char>) -> Seq<u16>
    decreases s.len(),
{
    if s.len() == 0 {
        Seq::empty()
    } else {
        utf16_of(s.drop_last()) + utf16_char(s.last())
    }
}

/// Encode a text as UTF-16 code units.
pub fn encode_utf16(s: &str) -> (units: Vec<u16>)
    ensures
        units@ == utf16_of(s@),
{
    let cs = chars_of(s);
    let mut units: Vec<u16> = Vec::new();
    let mut i: usize = 0;
    assert(cs@.take(0) =~= Seq::<char>::empty());
    while i < cs.len()
        invariant
            i <= cs@.len(),
            cs@ == s@,
            units@ == utf16_of(cs@.take(i as int)),
        decreases cs@.len() - i,
    {
        let c = cs[i];
        let u = c as u32;
        if u < 0x10000 {
            units.push(u as u16);
        } else {
            let v = u - 0x10000;
            units.push((0xD800 + v / 1024) as u16);
            units.push((0xDC00 + v % 1024) as u16);
        }
        assert(cs@.take(i + 1).drop_last() =~= cs@.take(i as int));
        assert(cs@.take(i + 1).last() == c);
        i += 1;
        assert(units@ =~= utf16_of(cs@.take(i as int)));
    }
    assert(cs@.take(i as int) =~= cs@);
    units
}

/// The task definition file that `schtasks /XML` reads for `exe_path`:
/// the XML of [`build_task_xml`], as UTF-16LE with byte-order mark.
pub fn task_xml_file(exe_path: &str) -> (bytes: Vec<u8>)
    ensures
        bytes@ == utf16le_file(utf16_of(TASK_XML_HEAD@ + xml_escaped(exe_path@) + TASK_XML_TAIL@)),
{
    let xml = build_task_xml(exe_path);
    let units = encode_utf16(xml.as_str());
    utf16le_with_bom(units.as_slice())
}

} // verus!
