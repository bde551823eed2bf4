//! The decisions the platform backends make around their I/O: how monitors
//! are identified and named, which I²C adapters carry DDC/CI, where Windows
//! keeps a monitor's EDID, how a capability buffer is decoded, and how a
//! DDC/CI frame is handed to `IOAVService` on macOS.

use vstd::prelude::*;

use crate::caps::{capabilities_of, parse, Capabilities};
use crate::ddc::DDC_ADDR;
use crate::edid::Edid;
use crate::fetch::{string_from_utf8_lossy, utf8_lossy};
use crate::monitor::{MonitorId, MonitorInfo, MonitorKind};
use crate::text::{chars_of, dec_digits, push_char, push_decimal, string_from, trim_bounds, trimmed};
use vstd::slice::slice_to_vec;

verus! {

// ---------------------------------------------------------------------------
// Text helpers
// ---------------------------------------------------------------------------

/// `p` occurs in `s` starting at index `i`.
pub open spec fn occurs_at(s: Seq<char>, p: Seq<char>, i: int) -> bool {
    0 <= i && i + p.len() <= s.len() && s.subrange(i, i + p.len()) == p
}

pub open spec fn contains(s: Seq<char>, p: Seq<char>) -> bool {
    exists|i: int| occurs_at(s, p, i)
}

fn contains_str(s: &[char], p: &str) -> (b: bool)
    ensures
        b == contains(s@, p@),
{
    let pv = chars_of(p);
    if pv.len() > s.len() {
        assert forall|i: int| !occurs_at(s@, pv@, i) by {}
        return false;
    }
    let mut i: usize = 0;
    let n = s.len();
    while i <= n - pv.len()
        invariant
            pv@ == p@,
            n == s@.len(),
            pv@.len() <= s@.len(),
            i <= s@.len() - pv@.len() + 1,
            forall|j: int| 0 <= j < i ==> !occurs_at(s@, pv@, j),
        decreases s@.len() - i,
    {
        let mut k: usize = 0;
        let mut same = true;
        while k < pv.len()
            invariant
                i + pv@.len() <= s@.len(),
                s@.len() <= usize::MAX,
                k <= pv@.len(),
                same == (forall|m: int| 0 <= m < k ==> s@[i + m] == pv@[m]),
            decreases pv@.len() - k,
        {
            if s[i + k] != pv[k] {
                same = false;
            }
            k += 1;
        }
        if same {
            assert(s@.subrange(i as int, i + pv@.len()) =~= pv@);
            assert(occurs_at(s@, p@, i as int));
            return true;
        }
        assert(!occurs_at(s@, pv@, i as int)) by {
            let m = choose|m: int| 0 <= m < pv@.len() && s@[i + m] != pv@[m];
            assert(s@.subrange(i as int, i + pv@.len())[m] != pv@[m]);
        }
        i += 1;
    }
    assert forall|j: int| !occurs_at(s@, pv@, j) by {
        if 0 <= j && j + pv@.len() <= s@.len() {
            assert(j < i);
        }
    }
    false
}

fn starts_with_str(s: &[char], p: &str) -> (b: bool)
    ensures
        b == p@.is_prefix_of(s@),
{
    let pv = chars_of(p);
    if pv.len() > s.len() {
        return false;
    }
    let mut k: usize = 0;
    while k < pv.len()
        invariant
            pv@ == p@,
            pv@.len() <= s@.len(),
            k <= pv@.len(),
            forall|m: int| 0 <= m < k ==> s@[m] == pv@[m],
        decreases pv@.len() - k,
    {
        if s[k] != pv[k] {
            assert(s@.subrange(0, pv@.len() as int)[k as int] != pv@[k as int]);
            return false;
        }
        k += 1;
    }
    assert(s@.subrange(0, pv@.len() as int) =~= pv@);
    true
}

/// The text that `str::to_uppercase` produces (Unicode upper-case mapping).
pub uninterp spec fn upper_case(s: Seq<char>) -> Seq<char>;

/// `str::to_uppercase`; its result is named by `upper_case`.
#[verifier::external_body]
fn to_uppercase(s: &str) -> (u: String)
    ensures
        u@ == upper_case(s@),
{
    s.to_uppercase()
}

pub open spec fn is_surrogate(u: u16) -> bool {
    0xD800 <= u && u < 0xE000
}

pub open spec fn is_high_surrogate(u: u16) -> bool {
    0xD800 <= u && u < 0xDC00
}

pub open spec fn is_low_surrogate(u: u16) -> bool {
    0xDC00 <= u && u < 0xE000
}

/// UTF-16 decoding with each unpaired surrogate replaced by U+FFFD: a high
/// surrogate followed by a low one is one character, any other surrogate
/// is U+FFFD, and every other unit is the character with its value.
pub open spec fn utf16_decoded(u: Seq<u16>) -> Seq<char>
    decreases u.len(),
{
    if u.len() == 0 {
        Seq::empty()
    } else if u.len() >= 2 && is_high_surrogate(u[0]) && is_low_surrogate(u[1]) {
        seq![(0x10000 + (u[0] - 0xD800) * 0x400 + (u[1] - 0xDC00)) as char] + utf16_decoded(u.skip(2))
    } else if is_surrogate(u[0]) {
        seq!['\u{FFFD}'] + utf16_decoded(u.skip(1))
    } else {
        seq![u[0] as char] + utf16_decoded(u.skip(1))
    }
}

/// `String::from_utf16_lossy`: the text the units encode, each unpaired
/// surrogate replaced by U+FFFD, as its documentation describes.
#[verifier::external_body]
fn string_from_utf16_lossy(units: &[u16]) -> (s: String)
    ensures
        s@ == utf16_decoded(units@),
{
    String::from_utf16_lossy(units)
}

// ---------------------------------------------------------------------------
// Windows
// ---------------------------------------------------------------------------

/// The units of `buf` before its first NUL.
pub open spec fn before_nul_u16(buf: Seq<u16>) -> Seq<u16>
    decreases buf.len(),
{
    if buf.len() == 0 {
        buf
    } else if before_nul_u16(buf.drop_last()).len() < buf.len() - 1 {
        before_nul_u16(buf.drop_last())
    } else if buf.last() == 0 {
        buf.drop_last()
    } else {
        buf
    }
}

/// Index of the first zero at or after `i`, or `buf.len()`.
pub open spec fn first_zero_u16(buf: Seq<u16>, i: int) -> int
    decreases buf.len() - i,
{
    if i < 0 || i >= buf.len() {
        buf.len() as int
    } else if buf[i] == 0 {
        i
    } else {
        first_zero_u16(buf, i + 1)
    }
}

/// Decode a NUL-terminated UTF-16 buffer (the text before the first NUL).
pub fn wstr_to_string(buf: &[u16]) -> (s: String)
    ensures
        s@ == utf16_decoded(buf@.subrange(0, first_zero_u16(buf@, 0))),
{
    let mut end: usize = 0;
    while end < buf.len() && buf[end] != 0
        invariant
            end <= buf@.len(),
            first_zero_u16(buf@, 0) == first_zero_u16(buf@, end as int),
        decreases buf@.len() - end,
    {
        end += 1;
    }
    string_from_utf16_lossy(&buf[0..end])
}

pub open spec fn strip_device_prefix(s: Seq<char>) -> Seq<char> {
    if "\\\\?\\"@.is_prefix_of(s) || "\\\\.\\"@.is_prefix_of(s) {
        s.skip(4)
    } else {
        s
    }
}

/// Index of the last `#` before index `j`, or -1.
pub open spec fn last_hash_before(t: Seq<char>, j: int) -> int
    decreases j,
{
    if j <= 0 {
        -1
    } else if t[j - 1] == '#' {
        j - 1
    } else {
        last_hash_before(t, j - 1)
    }
}

/// `t` without its trailing `#{...}` interface-class suffix, if it has one.
pub open spec fn without_interface_class(t: Seq<char>) -> Seq<char> {
    let h = last_hash_before(t, t.len() as int);
    if h >= 0 && h + 1 < t.len() && t[h + 1] == '{' {
        t.take(h)
    } else {
        t
    }
}

pub open spec fn hash_to_backslash(t: Seq<char>) -> Seq<char> {
    t.map_values(|c: char| if c == '#' { '\\' } else { c })
}

/// The registry key under `HKEY_LOCAL_MACHINE` that holds the EDID of the
/// monitor with the given device-interface path.
pub open spec fn edid_registry_key_of(interface_path: Seq<char>) -> Seq<char> {
    "SYSTEM\\CurrentControlSet\\Enum\\"@ + hash_to_backslash(
        without_interface_class(strip_device_prefix(interface_path)),
    ) + "\\Device Parameters"@
}

/// Convert the device-interface path EnumDisplayDevices returns —
///   `\\?\DISPLAY#DELA0E5#5&abc&0&UID0_0#{e6f07b5f-ee97-4a90-b076-33f57bf4eaa7}`
/// — into the registry path
///   `SYSTEM\CurrentControlSet\Enum\DISPLAY\DELA0E5\5&abc&0&UID0_0\Device Parameters`
/// whose `EDID` value holds the monitor's EDID blob.
pub fn edid_registry_key(interface_path: &str) -> (key: String)
    ensures
        key@ == edid_registry_key_of(interface_path@),
{
    let all = chars_of(interface_path);
    let start: usize = if starts_with_str(all.as_slice(), "\\\\?\\") || starts_with_str(
        all.as_slice(),
        "\\\\.\\",
    ) {
        4
    } else {
        0
    };
    proof {
        reveal_strlit("\\\\?\\");
        reveal_strlit("\\\\.\\");
        if start == 4 {
            assert(all@.len() >= 4);
        }
    }
    let stripped = crate::text::chars_from(all.as_slice(), start, all.len());
    assert(stripped@ =~= strip_device_prefix(interface_path@));
    // Drop the `#{guid}` interface-class suffix.
    let mut j = stripped.len();
    while j > 0 && stripped[j - 1] != '#'
        invariant
            j <= stripped@.len(),
            last_hash_before(stripped@, stripped@.len() as int) == last_hash_before(stripped@, j as int),
        decreases j,
    {
        j -= 1;
    }
    let end = if j > 0 && j < stripped.len() && stripped[j] == '{' {
        j - 1
    } else {
        stripped.len()
    };
    let mut key = "SYSTEM\\CurrentControlSet\\Enum\\".to_owned();
    let ghost prefix = key@;
    let mut k: usize = 0;
    while k < end
        invariant
            end <= stripped@.len(),
            k <= end,
            key@ == prefix + hash_to_backslash(stripped@.take(k as int)),
        decreases end - k,
    {
        let c = stripped[k];
        push_char(&mut key, if c == '#' { '\\' } else { c });
        k += 1;
        assert(hash_to_backslash(stripped@.take(k as int)) =~= hash_to_backslash(
            stripped@.take(k - 1),
        ).push(if c == '#' { '\\' } else { c }));
    }
    assert(stripped@.take(end as int) =~= without_interface_class(stripped@));
    key.append("\\Device Parameters");
    key
}

/// The display name of an external monitor: the EDID model name (with its
/// manufacturer code in front when known), else the description the OS gave,
/// else `Display <n>` with its 1-based position.
pub open spec fn display_name_of(idx: nat, raw_name: Seq<char>, edid: Option<Edid>) -> Seq<char> {
    if edid is Some && edid->0.model_name@.len() > 0 {
        let e = edid->0;
        if e.manufacturer@.len() > 0 {
            e.manufacturer@ + " "@ + e.model_name@
        } else {
            e.model_name@
        }
    } else if raw_name.len() > 0 {
        raw_name
    } else {
        "Display "@ + dec_digits(idx + 1)
    }
}

pub open spec fn nonempty_view(s: Seq<char>) -> Option<Seq<char>> {
    if s.len() > 0 {
        Some(s)
    } else {
        None
    }
}

pub open spec fn opt_str_view(o: Option<String>) -> Option<Seq<char>> {
    match o {
        Some(s) => Some(s@),
        None => None,
    }
}

fn nonempty(s: &String) -> (r: Option<String>)
    ensures
        opt_str_view(r) == nonempty_view(s@),
{
    if !s.as_str().is_empty() {
        Some(s.clone())
    } else {
        None
    }
}

/// The information of the `idx`-th physical monitor of the GDI display
/// adapter `device` (e.g. `\\.\DISPLAY1`).
pub fn physical_monitor_info(device: &str, idx: usize, raw_name: String, edid: Option<Edid>) -> (info:
    MonitorInfo)
    requires
        idx < usize::MAX,
    ensures
        info.id.0@ == "win:"@ + device@ + "#"@ + dec_digits(idx as nat),
        info.name@ == display_name_of(idx as nat, raw_name@, edid),
        info.kind == MonitorKind::External,
        opt_str_view(info.manufacturer) == (match edid {
            Some(e) => nonempty_view(e.manufacturer@),
            None => None,
        }),
        opt_str_view(info.model) == (match edid {
            Some(e) => nonempty_view(e.model_name@),
            None => None,
        }),
        info.capabilities is None,
{
    let mut id = "win:".to_owned();
    id.append(device);
    id.append("#");
    push_decimal(&mut id, idx as u64);
    let (name, manufacturer, model) = match &edid {
        Some(e) => {
            let manufacturer = nonempty(&e.manufacturer);
            let model = nonempty(&e.model_name);
            let name = if !e.model_name.as_str().is_empty() {
                if !e.manufacturer.as_str().is_empty() {
                    let mut n = e.manufacturer.clone();
                    n.append(" ");
                    n.append(e.model_name.as_str());
                    n
                } else {
                    e.model_name.clone()
                }
            } else if !raw_name.as_str().is_empty() {
                raw_name
            } else {
                let mut n = "Display ".to_owned();
                push_decimal(&mut n, idx as u64 + 1);
                n
            };
            (name, manufacturer, model)
        },
        None => {
            let name = if !raw_name.as_str().is_empty() {
                raw_name
            } else {
                let mut n = "Display ".to_owned();
                push_decimal(&mut n, idx as u64 + 1);
                n
            };
            (name, None, None)
        },
    };
    MonitorInfo {
        id: MonitorId::new(id),
        name,
        kind: MonitorKind::External,
        manufacturer,
        model,
        capabilities: None,
    }
}

} // verus!

verus! {

/// The information of the internal panel that Windows exposes through WMI.
pub fn wmi_internal_info() -> (info: MonitorInfo)
    ensures
        info.id.0@ == "win:internal:0"@,
        info.name@ == "Internal Display"@,
        info.kind == MonitorKind::Internal,
        info.manufacturer is None,
        info.model is None,
        info.capabilities is None,
{
    MonitorInfo {
        id: MonitorId::new("win:internal:0".to_owned()),
        name: "Internal Display".to_owned(),
        kind: MonitorKind::Internal,
        manufacturer: None,
        model: None,
        capabilities: None,
    }
}

/// The bytes of `buf` before its first NUL.
pub open spec fn first_zero(buf: Seq<u8>, i: int) -> int
    decreases buf.len() - i,
{
    if i < 0 || i >= buf.len() {
        buf.len() as int
    } else if buf[i] == 0 {
        i
    } else {
        first_zero(buf, i + 1)
    }
}

/// Decode the buffer that `CapabilitiesRequestAndCapabilitiesReply` filled:
/// the text before the first NUL, decoded as UTF-8 (lossily), parsed.
pub fn capabilities_from_buffer(buf: &[u8]) -> (caps: Capabilities)
    ensures
        caps@ == capabilities_of(utf8_lossy(buf@.subrange(0, first_zero(buf@, 0)))),
{
    let mut end: usize = 0;
    while end < buf.len() && buf[end] != 0
        invariant
            end <= buf@.len(),
            first_zero(buf@, 0) == first_zero(buf@, end as int),
        decreases buf@.len() - end,
    {
        end += 1;
    }
    let s = string_from_utf8_lossy(&buf[0..end]);
    parse(s.as_str())
}

// ---------------------------------------------------------------------------
// Linux
// ---------------------------------------------------------------------------

/// The information of a backlight device `/sys/class/backlight/<name>`.
pub fn backlight_info(name: &str) -> (info: MonitorInfo)
    ensures
        info.id.0@ == "linux:backlight:"@ + name@,
        info.name@ == "Internal Display ("@ + name@ + ")"@,
        info.kind == MonitorKind::Internal,
        info.manufacturer is None,
        info.model is None,
        info.capabilities is None,
{
    let mut id = "linux:backlight:".to_owned();
    id.append(name);
    let mut display = "Internal Display (".to_owned();
    display.append(name);
    display.append(")");
    MonitorInfo {
        id: MonitorId::new(id),
        name: display,
        kind: MonitorKind::Internal,
        manufacturer: None,
        model: None,
        capabilities: None,
    }
}

/// The name a backlight goes by: its sysfs directory's name, or `backlight`
/// when that name is not text.
pub open spec fn backlight_name(dir_name: Option<&str>) -> Seq<char> {
    match dir_name {
        Some(n) => n@,
        None => "backlight"@,
    }
}

/// The panel behind the backlight directory `dir_name`, given the value of
/// its `max_brightness` attribute: a device whose maximum is 0 cannot be
/// dimmed and is no display.
pub fn backlight_display_info(dir_name: Option<&str>, max_brightness: u32) -> (r: Option<MonitorInfo>)
    ensures
        r is None <==> max_brightness == 0,
        r matches Some(info) ==> {
            &&& info.id.0@ == "linux:backlight:"@ + backlight_name(dir_name)
            &&& info.name@ == "Internal Display ("@ + backlight_name(dir_name) + ")"@
            &&& info.kind == MonitorKind::Internal
            &&& info.manufacturer is None
            &&& info.model is None
            &&& info.capabilities is None
        },
{
    if max_brightness == 0 {
        return None;
    }
    let name = match dir_name {
        Some(n) => n,
        None => "backlight",
    };
    Some(backlight_info(name))
}

/// The information of an external display reached through the I²C device
/// node `dev` (e.g. `/dev/i2c-4`) whose adapter is called `friendly`.
pub fn i2c_display_info(dev: &str, friendly: &str) -> (info: MonitorInfo)
    ensures
        info.id.0@ == "linux:"@ + dev@,
        info.name@ == friendly@,
        info.kind == MonitorKind::External,
        info.manufacturer is None,
        info.model is None,
        info.capabilities is None,
{
    let mut id = "linux:".to_owned();
    id.append(dev);
    MonitorInfo {
        id: MonitorId::new(id),
        name: friendly.to_owned(),
        kind: MonitorKind::External,
        manufacturer: None,
        model: None,
        capabilities: None,
    }
}

/// Whether an I²C adapter carries DDC/CI: its sysfs directory is an
/// `i2c-N` entry and its (trimmed) name mentions DDC in any letter case,
/// or it is an Intel `i915 gmbus` adapter.
pub open spec fn is_ddc_adapter(dir_name: Seq<char>, name: Seq<char>) -> bool {
    "i2c-"@.is_prefix_of(dir_name) && (contains(upper_case(name), "DDC"@) || contains(
        name,
        "i915 gmbus"@,
    ))
}

/// The adapter name (the `name` attribute's text, trimmed) of the sysfs
/// entry `dir_name` when that adapter carries DDC/CI; `None` for others.
pub fn ddc_adapter_name(dir_name: &str, name_attr: &str) -> (r: Option<String>)
    ensures
        r is Some <==> is_ddc_adapter(dir_name@, trimmed(name_attr@)),
        r matches Some(n) ==> n@ == trimmed(name_attr@),
{
    let dir = chars_of(dir_name);
    if !starts_with_str(dir.as_slice(), "i2c-") {
        return None;
    }
    let all = chars_of(name_attr);
    let (lo, hi) = trim_bounds(all.as_slice());
    let name = string_from(all.as_slice(), lo, hi);
    // Adapters that aren't DDC (e.g. system management bus) lack "DDC".
    let upper = to_uppercase(name.as_str());
    let upper_chars = chars_of(upper.as_str());
    let name_chars = chars_of(name.as_str());
    if !contains_str(upper_chars.as_slice(), "DDC") && !contains_str(
        name_chars.as_slice(),
        "i915 gmbus",
    ) {
        return None;
    }
    Some(name)
}

// ---------------------------------------------------------------------------
// macOS
// ---------------------------------------------------------------------------

/// The information of the built-in panel with display id `id`.
pub fn mac_internal_info(id: u32) -> (info: MonitorInfo)
    ensures
        info.id.0@ == "mac:internal:"@ + dec_digits(id as nat),
        info.name@ == "Built-in Display ("@ + dec_digits(id as nat) + ")"@,
        info.kind == MonitorKind::Internal,
        info.manufacturer is None,
        info.model is None,
        info.capabilities is None,
{
    let mut ident = "mac:internal:".to_owned();
    push_decimal(&mut ident, id as u64);
    let mut name = "Built-in Display (".to_owned();
    push_decimal(&mut name, id as u64);
    name.append(")");
    MonitorInfo {
        id: MonitorId::new(ident),
        name,
        kind: MonitorKind::Internal,
        manufacturer: None,
        model: None,
        capabilities: None,
    }
}

/// The information of the external display with display id `id`.
pub fn mac_external_info(id: u32) -> (info: MonitorInfo)
    ensures
        info.id.0@ == "mac:external:"@ + dec_digits(id as nat),
        info.name@ == "External Display ("@ + dec_digits(id as nat) + ")"@,
        info.kind == MonitorKind::External,
        info.manufacturer is None,
        info.model is None,
        info.capabilities is None,
{
    let mut ident = "mac:external:".to_owned();
    push_decimal(&mut ident, id as u64);
    let mut name = "External Display (".to_owned();
    push_decimal(&mut name, id as u64);
    name.append(")");
    MonitorInfo {
        id: MonitorId::new(ident),
        name,
        kind: MonitorKind::External,
        manufacturer: None,
        model: None,
        capabilities: None,
    }
}

/// The arguments of `IOAVServiceWriteI2C` for a DDC/CI frame
/// `[SRC, LEN, ...rest]`: the chip address `DDC_ADDR << 1`, the LEN byte as
/// the offset, and the bytes after it (the framework adds the host source
/// byte itself).
pub fn av_write_args(frame: &[u8]) -> (args: (u32, u32, Vec<u8>))
    requires
        frame@.len() >= 2,
    ensures
        args.0 == 0x6E,
        args.1 == frame@[1] as u32,
        args.2@ == frame@.skip(2),
{
    let chip = (DDC_ADDR as u32) << 1;
    assert(chip == 0x6E) by (bit_vector)
        requires
            chip == (0x37u8 as u32) << 1,
    ;
    let offset = frame[1] as u32;
    let data = slice_to_vec(&frame[2..frame.len()]);
    (chip, offset, data)
}

/// The operating systems the backends are written for.
#[derive(Debug, Clone, Copy, PartialEq, Eq)]
pub enum Platform {
    Windows,
    MacOs,
    Linux,
    Other,
}

/// A platform backend.
#[derive(Debug, Clone, Copy, PartialEq, Eq)]
pub enum Backend {
    Windows,
    MacOs,
    Linux,
}

/// The backend for a platform; other platforms have none, which is refused
/// as unsupported.
pub fn backend_for(p: Platform) -> (r: crate::error::Result<Backend>)
    ensures
        match p {
            Platform::Windows => r matches Ok(Backend::Windows),
            Platform::MacOs => r matches Ok(Backend::MacOs),
            Platform::Linux => r matches Ok(Backend::Linux),
            Platform::Other => r matches Err(crate::error::Error::Unsupported(m))
                && m@ == "brightness-core has no backend for this platform"@,
        },
{
    match p {
        Platform::Windows => Ok(Backend::Windows),
        Platform::MacOs => Ok(Backend::MacOs),
        Platform::Linux => Ok(Backend::Linux),
        Platform::Other => Err(crate::error::Error::Unsupported("brightness-core has no backend for this platform")),
    }
}

} // verus!
