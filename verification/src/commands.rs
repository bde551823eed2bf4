//! The values the desktop front end exchanges with its UI: per-monitor
//! outcomes, raw VCP readings and the curated profile templates.

use vstd::prelude::*;

use crate::vcp::VcpValue;

verus! {

/// The outcome of setting one monitor.
#[derive(Debug, Clone)]
pub struct SetResult {
    pub id: String,
    pub ok: bool,
    pub error: Option<String>,
}

impl SetResult {
    /// The outcome for monitor `id` from the result of setting it.
    pub fn from_outcome(id: String, res: Result<(), String>) -> (r: SetResult)
        ensures
            r.id@ == id@,
            r.ok == res is Ok,
            match res {
                Ok(_) => r.error is None,
                Err(e) => r.error matches Some(m) && m@ == e@,
            },
    {
        match res {
            Ok(()) => SetResult { id, ok: true, error: None },
            Err(e) => SetResult { id, ok: false, error: Some(e) },
        }
    }
}

/// A raw VCP reading as the UI shows it.
#[derive(Debug, Clone, Copy, PartialEq, Eq)]
pub struct VcpView {
    pub current: u16,
    pub maximum: u16,
}

impl VcpView {
    pub fn from_value(v: VcpValue) -> (r: VcpView)
        ensures
            r.current == v.current,
            r.maximum == v.maximum,
    {
        VcpView { current: v.current, maximum: v.maximum }
    }
}

/// A monitor-agnostic starting point the UI can turn into a full profile by
/// applying the values to each connected monitor. `color_preset` uses the
/// VCP 0x14 encoding (1=sRGB, 2=Native, 4=5000K, 5=6500K, 6=7500K, 8=9300K,
/// 11=User).
#[derive(Debug, Clone)]
pub struct ProfileTemplate {
    pub id: String,
    pub name: String,
    pub brightness: u8,
    pub contrast: u8,
    pub color_preset: u16,
}

/// A template as mathematical values: id, name, brightness, contrast, preset.
pub open spec fn template_view(t: ProfileTemplate) -> (Seq<char>, Seq<char>, u8, u8, u16) {
    (t.id@, t.name@, t.brightness, t.contrast, t.color_preset)
}

/// The curated templates, in the order the UI lists them.
pub open spec fn default_templates() -> Seq<(Seq<char>, Seq<char>, u8, u8, u16)> {
    seq![
        ("gaming"@, "Gaming"@, 100u8, 75u8, 2u16),
        ("movie"@, "Movie / Video"@, 35u8, 60u8, 4u16),
        ("reading"@, "Reading / Night"@, 25u8, 50u8, 4u16),
        ("office"@, "Office / Productivity"@, 75u8, 60u8, 5u16),
        ("photo"@, "Photo editing"@, 70u8, 50u8, 1u16),
    ]
}

fn template(id: &str, name: &str, brightness: u8, contrast: u8, color_preset: u16) -> (t:
    ProfileTemplate)
    ensures
        template_view(t) == (id@, name@, brightness, contrast, color_preset),
{
    ProfileTemplate { id: id.to_owned(), name: name.to_owned(), brightness, contrast, color_preset }
}

/// Curated starting points for common usage scenarios. The front end
/// localizes the label by `id` and applies the values to every monitor.
pub fn default_profile_templates() -> (v: Vec<ProfileTemplate>)
    ensures
        v@.map_values(|t: ProfileTemplate| template_view(t)) == default_templates(),
{
    let mut v: Vec<ProfileTemplate> = Vec::new();
    // Native — punchy, full gamut
    v.push(template("gaming", "Gaming", 100, 75, 2));
    // 5000K — warm, cinematic
    v.push(template("movie", "Movie / Video", 35, 60, 4));
    // 5000K — easy on the eyes at night
    v.push(template("reading", "Reading / Night", 25, 50, 4));
    // 6500K — neutral daylight
    v.push(template("office", "Office / Productivity", 75, 60, 5));
    // sRGB — calibrated reference
    v.push(template("photo", "Photo editing", 70, 50, 1));
    assert(v@.map_values(|t: ProfileTemplate| template_view(t)) =~= default_templates());
    v
}

} // verus!
