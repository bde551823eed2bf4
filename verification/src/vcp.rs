//! VCP (Virtual Control Panel) codes per the VESA Monitor Control Command Set (MCCS).
//!
//! Only the codes the application actually uses are listed; the wire protocol
//! accepts any `u8` so unknown codes can still be probed via `set_vcp`.

use vstd::prelude::*;

use crate::text::push_hex2_upper;
#[allow(unused_imports)]
use crate::text::hex2_upper;

verus! {

/// A high-level VCP feature with documented semantics.
#[derive(Debug, Clone, Copy, PartialEq, Eq, Hash)]
#[non_exhaustive]
pub enum VcpFeature {
    /// 0x10 — Luminance / brightness, 0..=100.
    Luminance,
    /// 0x12 — Contrast, 0..=100.
    Contrast,
    /// 0x14 — Select color preset (5=6500K, 6=7500K, 8=9300K, 11=user, ...).
    ColorPreset,
    /// 0x16 — Video gain (red).
    VideoGainRed,
    /// 0x18 — Video gain (green).
    VideoGainGreen,
    /// 0x1A — Video gain (blue).
    VideoGainBlue,
    /// 0x60 — Input source.
    InputSource,
    /// 0x62 — Audio: speaker volume.
    AudioVolume,
    /// 0x8D — Audio mute.
    AudioMute,
    /// 0xD6 — Power mode (1=on, 4=standby, 5=off).
    PowerMode,
    /// 0xDC — Display application/picture mode.
    PictureMode,
    /// 0xCC — OSD language.
    OsdLanguage,
}

/// Wire-level VCP code of a feature per MCCS.
pub open spec fn feature_code(f: VcpFeature) -> u8 {
    match f {
        VcpFeature::Luminance => 0x10,
        VcpFeature::Contrast => 0x12,
        VcpFeature::ColorPreset => 0x14,
        VcpFeature::VideoGainRed => 0x16,
        VcpFeature::VideoGainGreen => 0x18,
        VcpFeature::VideoGainBlue => 0x1A,
        VcpFeature::InputSource => 0x60,
        VcpFeature::AudioVolume => 0x62,
        VcpFeature::AudioMute => 0x8D,
        VcpFeature::PowerMode => 0xD6,
        VcpFeature::PictureMode => 0xDC,
        VcpFeature::OsdLanguage => 0xCC,
    }
}

/// The feature with a given code, if it is one of the listed ones.
pub open spec fn feature_of_code(code: u8) -> Option<VcpFeature> {
    if code == 0x10 {
        Some(VcpFeature::Luminance)
    } else if code == 0x12 {
        Some(VcpFeature::Contrast)
    } else if code == 0x14 {
        Some(VcpFeature::ColorPreset)
    } else if code == 0x16 {
        Some(VcpFeature::VideoGainRed)
    } else if code == 0x18 {
        Some(VcpFeature::VideoGainGreen)
    } else if code == 0x1A {
        Some(VcpFeature::VideoGainBlue)
    } else if code == 0x60 {
        Some(VcpFeature::InputSource)
    } else if code == 0x62 {
        Some(VcpFeature::AudioVolume)
    } else if code == 0x8D {
        Some(VcpFeature::AudioMute)
    } else if code == 0xD6 {
        Some(VcpFeature::PowerMode)
    } else if code == 0xDC {
        Some(VcpFeature::PictureMode)
    } else if code == 0xCC {
        Some(VcpFeature::OsdLanguage)
    } else {
        None
    }
}

/// The snake-case name of a feature.
pub open spec fn feature_name(f: VcpFeature) -> Seq<char> {
    match f {
        VcpFeature::Luminance => "luminance"@,
        VcpFeature::Contrast => "contrast"@,
        VcpFeature::ColorPreset => "color_preset"@,
        VcpFeature::VideoGainRed => "video_gain_red"@,
        VcpFeature::VideoGainGreen => "video_gain_green"@,
        VcpFeature::VideoGainBlue => "video_gain_blue"@,
        VcpFeature::InputSource => "input_source"@,
        VcpFeature::AudioVolume => "audio_volume"@,
        VcpFeature::AudioMute => "audio_mute"@,
        VcpFeature::PowerMode => "power_mode"@,
        VcpFeature::PictureMode => "picture_mode"@,
        VcpFeature::OsdLanguage => "osd_language"@,
    }
}

impl VcpFeature {
    /// Wire-level VCP code per MCCS.
    pub fn code(self) -> (c: u8)
        ensures
            c == feature_code(self),
    {
        match self {
            Self::Luminance => 0x10,
            Self::Contrast => 0x12,
            Self::ColorPreset => 0x14,
            Self::VideoGainRed => 0x16,
            Self::VideoGainGreen => 0x18,
            Self::VideoGainBlue => 0x1A,
            Self::InputSource => 0x60,
            Self::AudioVolume => 0x62,
            Self::AudioMute => 0x8D,
            Self::PowerMode => 0xD6,
            Self::PictureMode => 0xDC,
            Self::OsdLanguage => 0xCC,
        }
    }

    pub fn from_code(code: u8) -> (f: Option<Self>)
        ensures
            f == feature_of_code(code),
    {
        match code {
            0x10 => Some(Self::Luminance),
            0x12 => Some(Self::Contrast),
            0x14 => Some(Self::ColorPreset),
            0x16 => Some(Self::VideoGainRed),
            0x18 => Some(Self::VideoGainGreen),
            0x1A => Some(Self::VideoGainBlue),
            0x60 => Some(Self::InputSource),
            0x62 => Some(Self::AudioVolume),
            0x8D => Some(Self::AudioMute),
            0xD6 => Some(Self::PowerMode),
            0xDC => Some(Self::PictureMode),
            0xCC => Some(Self::OsdLanguage),
            _ => None,
        }
    }

    pub fn name(self) -> (n: &'static str)
        ensures
            n@ == feature_name(self),
    {
        match self {
            Self::Luminance => "luminance",
            Self::Contrast => "contrast",
            Self::ColorPreset => "color_preset",
            Self::VideoGainRed => "video_gain_red",
            Self::VideoGainGreen => "video_gain_green",
            Self::VideoGainBlue => "video_gain_blue",
            Self::InputSource => "input_source",
            Self::AudioVolume => "audio_volume",
            Self::AudioMute => "audio_mute",
            Self::PowerMode => "power_mode",
            Self::PictureMode => "picture_mode",
            Self::OsdLanguage => "osd_language",
        }
    }

    /// Human-readable form: `name (0xCC)`.
    pub fn to_string(self) -> (s: String)
        ensures
            s@ == feature_name(self) + " (0x"@ + hex2_upper(feature_code(self)) + ")"@,
    {
        let mut s = self.name().to_owned();
        s.append(" (0x");
        push_hex2_upper(&mut s, self.code());
        s.append(")");
        s
    }
}

/// Current and maximum value for a VCP feature, returned by a DDC/CI Get-VCP reply.
#[derive(Debug, Clone, Copy, PartialEq, Eq)]
pub struct VcpValue {
    pub current: u16,
    pub maximum: u16,
}

impl VcpValue {
    pub fn new(current: u16, maximum: u16) -> (v: Self)
        ensures
            v.current == current,
            v.maximum == maximum,
    {
        Self { current, maximum }
    }
}

/// Standard ColorPreset (0x14) values per MCCS.
#[derive(Debug, Clone, Copy, PartialEq, Eq)]
#[non_exhaustive]
pub enum ColorPreset {
    SRgb,
    Native,
    K4000,
    K5000,
    K6500,
    K7500,
    K8200,
    K9300,
    K10000,
    K11500,
    UserDefined,
    Other(u16),
}

pub open spec fn preset_raw(p: ColorPreset) -> u16 {
    match p {
        ColorPreset::SRgb => 0x01,
        ColorPreset::Native => 0x02,
        ColorPreset::K4000 => 0x03,
        ColorPreset::K5000 => 0x04,
        ColorPreset::K6500 => 0x05,
        ColorPreset::K7500 => 0x06,
        ColorPreset::K8200 => 0x07,
        ColorPreset::K9300 => 0x08,
        ColorPreset::K10000 => 0x09,
        ColorPreset::K11500 => 0x0A,
        ColorPreset::UserDefined => 0x0B,
        ColorPreset::Other(v) => v,
    }
}

pub open spec fn preset_of_raw(v: u16) -> ColorPreset {
    if v == 0x01 {
        ColorPreset::SRgb
    } else if v == 0x02 {
        ColorPreset::Native
    } else if v == 0x03 {
        ColorPreset::K4000
    } else if v == 0x04 {
        ColorPreset::K5000
    } else if v == 0x05 {
        ColorPreset::K6500
    } else if v == 0x06 {
        ColorPreset::K7500
    } else if v == 0x07 {
        ColorPreset::K8200
    } else if v == 0x08 {
        ColorPreset::K9300
    } else if v == 0x09 {
        ColorPreset::K10000
    } else if v == 0x0A {
        ColorPreset::K11500
    } else if v == 0x0B {
        ColorPreset::UserDefined
    } else {
        ColorPreset::Other(v)
    }
}

impl ColorPreset {
    pub fn raw(self) -> (v: u16)
        ensures
            v == preset_raw(self),
    {
        match self {
            Self::SRgb => 0x01,
            Self::Native => 0x02,
            Self::K4000 => 0x03,
            Self::K5000 => 0x04,
            Self::K6500 => 0x05,
            Self::K7500 => 0x06,
            Self::K8200 => 0x07,
            Self::K9300 => 0x08,
            Self::K10000 => 0x09,
            Self::K11500 => 0x0A,
            Self::UserDefined => 0x0B,
            Self::Other(v) => v,
        }
    }

    pub fn from_raw(v: u16) -> (p: Self)
        ensures
            p == preset_of_raw(v),
    {
        match v {
            0x01 => Self::SRgb,
            0x02 => Self::Native,
            0x03 => Self::K4000,
            0x04 => Self::K5000,
            0x05 => Self::K6500,
            0x06 => Self::K7500,
            0x07 => Self::K8200,
            0x08 => Self::K9300,
            0x09 => Self::K10000,
            0x0A => Self::K11500,
            0x0B => Self::UserDefined,
            other => Self::Other(other),
        }
    }
}

/// Every listed feature is found again from its code, and a code that names
/// a feature is that feature's code.
pub proof fn feature_code_roundtrip(f: VcpFeature, code: u8)
    ensures
        feature_of_code(feature_code(f)) == Some(f),
        feature_of_code(code) matches Some(g) ==> feature_code(g) == code,
{
}

/// Decoding then encoding a raw color-preset value gives it back; encoding
/// then decoding a preset gives it back, except for an `Other` that carries
/// one of the standard values (1..=11), which decodes to its named preset.
pub proof fn color_preset_roundtrip(v: u16, p: ColorPreset)
    ensures
        preset_raw(preset_of_raw(v)) == v,
        !(p matches ColorPreset::Other(w) && 1 <= w <= 11) ==> preset_of_raw(preset_raw(p)) == p,
{
}

} // verus!
