use brightness_core::{ColorPreset, VcpFeature, VcpValue};

#[test]
fn vcp_codes_roundtrip() {
    for f in [
        VcpFeature::Luminance,
        VcpFeature::Contrast,
        VcpFeature::ColorPreset,
        VcpFeature::InputSource,
        VcpFeature::AudioVolume,
        VcpFeature::AudioMute,
        VcpFeature::PowerMode,
        VcpFeature::PictureMode,
        VcpFeature::OsdLanguage,
        VcpFeature::VideoGainRed,
        VcpFeature::VideoGainGreen,
        VcpFeature::VideoGainBlue,
    ] {
        assert_eq!(VcpFeature::from_code(f.code()), Some(f));
    }
}

#[test]
fn color_preset_roundtrip() {
    for p in [
        ColorPreset::SRgb,
        ColorPreset::Native,
        ColorPreset::K4000,
        ColorPreset::K5000,
        ColorPreset::K6500,
        ColorPreset::K7500,
        ColorPreset::K9300,
        ColorPreset::K10000,
        ColorPreset::UserDefined,
    ] {
        assert_eq!(ColorPreset::from_raw(p.raw()), p);
    }
}

#[test]
fn feature_codes_and_names() {
    assert_eq!(VcpFeature::Luminance.code(), 0x10);
    assert_eq!(VcpFeature::OsdLanguage.code(), 0xCC);
    assert_eq!(VcpFeature::from_code(0x13), None);
    assert_eq!(VcpFeature::AudioMute.name(), "audio_mute");
    assert_eq!(VcpFeature::ColorPreset.to_string(), "color_preset (0x14)");
    assert_eq!(VcpFeature::PictureMode.to_string(), "picture_mode (0xDC)");
}

#[test]
fn color_preset_other_values() {
    assert_eq!(ColorPreset::from_raw(0x0C), ColorPreset::Other(0x0C));
    assert_eq!(ColorPreset::Other(0x0C).raw(), 0x0C);
    assert_eq!(ColorPreset::K11500.raw(), 0x0A);
    // An `Other` carrying a standard value decodes to the named preset.
    assert_eq!(ColorPreset::from_raw(ColorPreset::Other(5).raw()), ColorPreset::K6500);
}

#[test]
fn vcp_value_new_keeps_fields() {
    let v = VcpValue::new(30, 80);
    assert_eq!(v.current, 30);
    assert_eq!(v.maximum, 80);
}
