use brightness_core::ddc::{encode_capabilities_request, reply_checksum, DISPLAY_SRC, OPCODE_CAP_REPLY};
use brightness_core::edid::Edid;
use brightness_core::fetch::{is_malformed_capabilities_reply, CapabilityReader, CapabilityStep, MAX_FRAGMENTS};
use brightness_core::platform::{
    av_write_args, backlight_display_info, backlight_info, capabilities_from_buffer, ddc_adapter_name, edid_registry_key,
    i2c_display_info, mac_external_info, mac_internal_info, physical_monitor_info, wmi_internal_info,
    wstr_to_string,
};
use brightness_core::{Error, MonitorId, MonitorKind};

fn cap_reply(offset: u16, data: &[u8]) -> Vec<u8> {
    let mut v = vec![DISPLAY_SRC, 0x80 | (3 + data.len() as u8), OPCODE_CAP_REPLY, (offset >> 8) as u8, offset as u8];
    v.extend_from_slice(data);
    let c = reply_checksum(&v);
    v.push(c);
    v
}

#[test]
fn capability_reader_assembles_fragments() {
    let mut r = CapabilityReader::new();
    match r.start() {
        CapabilityStep::Request(f) => assert_eq!(f, encode_capabilities_request(0)),
        _ => panic!("first step must be a request"),
    }
    match r.on_reply(&cap_reply(0, b"(vcp(10")) {
        CapabilityStep::Request(f) => assert_eq!(f, encode_capabilities_request(7)),
        _ => panic!("expected a second request"),
    }
    match r.on_reply(&cap_reply(7, b" 12)model(Q))")) {
        CapabilityStep::Request(f) => assert_eq!(f, encode_capabilities_request(20)),
        _ => panic!("expected a third request"),
    }
    match r.on_reply(&cap_reply(20, b"")) {
        CapabilityStep::Done(c) => {
            assert_eq!(c.raw, "(vcp(10 12)model(Q))");
            assert!(c.supports(0x10));
            assert!(c.supports(0x12));
            assert_eq!(c.model.as_deref(), Some("Q"));
        },
        _ => panic!("expected the string to be complete"),
    }
}

#[test]
fn capability_reader_reports_bad_reply() {
    let mut r = CapabilityReader::new();
    let mut bad = cap_reply(0, b"abc");
    let last = bad.len() - 1;
    bad[last] ^= 0xFF;
    match r.on_reply(&bad) {
        CapabilityStep::Failed(e) => assert!(matches!(e, Error::Checksum)),
        _ => panic!("expected a failure"),
    }
}

#[test]
fn capability_reader_stops_after_max_fragments() {
    let mut r = CapabilityReader::new();
    let mut offset: u16 = 0;
    let mut done = false;
    for i in 0..MAX_FRAGMENTS {
        match r.on_reply(&cap_reply(offset, b"x")) {
            CapabilityStep::Request(_) => offset += 1,
            CapabilityStep::Done(c) => {
                assert_eq!(i + 1, MAX_FRAGMENTS);
                assert_eq!(c.raw.len(), MAX_FRAGMENTS as usize);
                done = true;
            },
            CapabilityStep::Failed(_) => panic!("unexpected failure"),
        }
    }
    assert!(done);
}

#[test]
fn capability_reader_decodes_lossily() {
    let mut r = CapabilityReader::new();
    let _ = r.on_reply(&cap_reply(0, &[b'a', 0xFF, b'b']));
    match r.on_reply(&cap_reply(3, b"")) {
        CapabilityStep::Done(c) => assert_eq!(c.raw, "a\u{FFFD}b"),
        _ => panic!("expected the string to be complete"),
    }
}

#[test]
fn malformed_capability_reply_detected() {
    // A length field below 3 would make the payload slice run backwards.
    let mut v = vec![DISPLAY_SRC, 0x82, OPCODE_CAP_REPLY, 0x00];
    let c = reply_checksum(&v);
    v.push(c);
    v.push(0);
    assert!(is_malformed_capabilities_reply(&v));
    assert!(!is_malformed_capabilities_reply(&cap_reply(0, b"ab")));
    assert!(!is_malformed_capabilities_reply(&[0x00, 0x81]));
}

#[test]
fn wide_strings_stop_at_nul() {
    assert_eq!(wstr_to_string(&[0x41, 0x42, 0, 0x43]), "AB");
    assert_eq!(wstr_to_string(&[0x44, 0x45, 0x4C]), "DEL");
    assert_eq!(wstr_to_string(&[0]), "");
    assert_eq!(wstr_to_string(&[0xD800, 0x41, 0]), "\u{FFFD}A");
}

#[test]
fn registry_key_from_interface_path() {
    assert_eq!(
        edid_registry_key("\\\\?\\DISPLAY#DELA0E5#5&abc&0&UID0_0#{e6f07b5f-ee97-4a90-b076-33f57bf4eaa7}"),
        "SYSTEM\\CurrentControlSet\\Enum\\DISPLAY\\DELA0E5\\5&abc&0&UID0_0\\Device Parameters"
    );
    assert_eq!(
        edid_registry_key("DISPLAY#GSM5B7F#4&1"),
        "SYSTEM\\CurrentControlSet\\Enum\\DISPLAY\\GSM5B7F\\4&1\\Device Parameters"
    );
}

#[test]
fn ddc_adapters() {
    assert_eq!(ddc_adapter_name("i2c-4", "AMDGPU DM aux hw bus 0 ddc\n"), Some("AMDGPU DM aux hw bus 0 ddc".to_string()));
    assert_eq!(ddc_adapter_name("i2c-5", " i915 gmbus dpc "), Some("i915 gmbus dpc".to_string()));
    assert_eq!(ddc_adapter_name("i2c-1", "SMBus I801 adapter"), None);
    assert_eq!(ddc_adapter_name("dev-1", "DDC"), None);
}

#[test]
fn capability_buffer_before_nul() {
    let c = capabilities_from_buffer(b"(vcp(10 60(01 0F)))\0junk(vcp(12))");
    assert_eq!(c.raw, "(vcp(10 60(01 0F)))");
    assert!(c.supports(0x10));
    assert_eq!(c.vcp.get(&0x60), Some(&vec![0x01, 0x0F]));
    assert!(!c.supports(0x12));
}

#[test]
fn monitor_infos() {
    let edid = Edid {
        manufacturer: "DEL".to_string(),
        model_name: "DELL U2720Q".to_string(),
        serial_string: String::new(),
        product_code: 0xA0E5,
        year_of_manufacture: 2020,
    };
    let i = physical_monitor_info("\\\\.\\DISPLAY1", 0, "Generic PnP Monitor".to_string(), Some(edid));
    assert_eq!(i.id.as_str(), "win:\\\\.\\DISPLAY1#0");
    assert_eq!(i.name, "DEL DELL U2720Q");
    assert_eq!(i.kind, MonitorKind::External);
    assert_eq!(i.manufacturer.as_deref(), Some("DEL"));
    assert_eq!(i.model.as_deref(), Some("DELL U2720Q"));
    let j = physical_monitor_info("\\\\.\\DISPLAY2", 1, String::new(), None);
    assert_eq!(j.name, "Display 2");
    assert_eq!(j.manufacturer, None);
    let k = physical_monitor_info("\\\\.\\DISPLAY2", 2, "Generic".to_string(), None);
    assert_eq!(k.name, "Generic");

    let w = wmi_internal_info();
    assert_eq!((w.id.as_str(), w.name.as_str(), w.kind), ("win:internal:0", "Internal Display", MonitorKind::Internal));
    let b = backlight_info("intel_backlight");
    assert_eq!(b.id.to_string(), "linux:backlight:intel_backlight");
    assert_eq!(b.name, "Internal Display (intel_backlight)");
    let d = i2c_display_info("/dev/i2c-4", "DDC bus");
    assert_eq!((d.id.as_str(), d.name.as_str(), d.kind), ("linux:/dev/i2c-4", "DDC bus", MonitorKind::External));
    let m = mac_internal_info(1);
    assert_eq!((m.id.as_str(), m.name.as_str()), ("mac:internal:1", "Built-in Display (1)"));
    let x = mac_external_info(724);
    assert_eq!((x.id.as_str(), x.name.as_str()), ("mac:external:724", "External Display (724)"));
    assert_eq!(MonitorId::new("abc".to_string()).as_str(), "abc");
    assert_eq!(MonitorKind::Internal.to_string(), "internal");
    assert_eq!(MonitorKind::External.to_string(), "external");
}

#[test]
fn av_service_arguments() {
    let frame = [0x51, 0x84, 0x03, 0x10, 0x00, 0x32, 0x9A];
    let (chip, offset, data) = av_write_args(&frame);
    assert_eq!(chip, 0x6E);
    assert_eq!(offset, 0x84);
    assert_eq!(data, vec![0x03, 0x10, 0x00, 0x32, 0x9A]);
}

#[test]
fn error_messages() {
    assert_eq!(Error::NotFound("x".to_string()).to_string(), "display not found: x");
    assert_eq!(
        Error::Unsupported("y").to_string(),
        "operation not supported on this monitor or platform: y"
    );
    assert_eq!(Error::Protocol("z".to_string()).to_string(), "DDC/CI protocol error: z");
    assert_eq!(Error::Checksum.to_string(), "DDC/CI checksum mismatch");
    assert_eq!(
        Error::InvalidValue { code: 0x1A, value: 300, max: 100 }.to_string(),
        "invalid VCP value 300 for code 0x1a (max 100)"
    );
    assert_eq!(Error::PermissionDenied("p".to_string()).to_string(), "permission denied: p");
    assert_eq!(Error::Platform("q".to_string()).to_string(), "platform error: q");
    assert_eq!(Error::Timeout.to_string(), "timeout waiting for monitor response");
    let io = Error::Io(std::io::Error::new(std::io::ErrorKind::Other, "disk on fire"));
    assert_eq!(io.to_string(), "I/O error: disk on fire");
}

#[test]
fn backlight_with_zero_maximum_is_no_display() {
    assert!(backlight_display_info(Some("acpi_video0"), 0).is_none());
    let i = backlight_display_info(Some("intel_backlight"), 120000).unwrap();
    assert_eq!(i.id.as_str(), "linux:backlight:intel_backlight");
    assert_eq!(i.name, "Internal Display (intel_backlight)");
    let j = backlight_display_info(None, 7).unwrap();
    assert_eq!(j.id.as_str(), "linux:backlight:backlight");
}

#[test]
fn wide_strings_decode_surrogate_pairs() {
    assert_eq!(wstr_to_string(&[0xD83D, 0xDE00, 0x41, 0]), "\u{1F600}A");
    assert_eq!(wstr_to_string(&[0xDE00, 0xD83D, 0]), "\u{FFFD}\u{FFFD}");
    assert_eq!(wstr_to_string(&[0xD83D, 0x41]), "\u{FFFD}A");
}
