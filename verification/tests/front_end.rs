use brightness_core::lifecycle::{hotkey_action, AppAction, AppEvent, HotkeyAction, HotkeyKind, Lifecycle};
use brightness_core::platform::{backend_for, Backend, Platform};
use brightness_core::Error;
use brightness_core::autostart::{
    build_task_xml, create_task_params, delete_task_params, encode_utf16, status, task_xml_file, utf16le_with_bom,
    xml_escape, TASK_NAME, TASK_XML_HEAD, TASK_XML_TAIL,
};
use brightness_core::commands::{default_profile_templates, SetResult, VcpView};
use brightness_core::menu::{
    down_item_id, parse_menu_id, profile_item_id, set_item_id, up_item_id, MenuCommand, BRIGHTNESS_PRESETS,
};
use brightness_core::profiles::find_profile_for_app;
use brightness_core::VcpValue;

#[test]
fn xml_escape_all_specials() {
    assert_eq!(xml_escape("a&b<c>\"d'e"), "a&amp;b&lt;c&gt;&quot;d&apos;e");
    assert_eq!(xml_escape("plain"), "plain");
    assert_eq!(xml_escape(""), "");
}

#[test]
fn task_xml_embeds_escaped_path() {
    let xml = build_task_xml("C:\\Apps\\R&D <x>.exe");
    assert!(xml.starts_with(TASK_XML_HEAD));
    assert!(xml.ends_with(TASK_XML_TAIL));
    assert!(xml.contains("<Command>C:\\Apps\\R&amp;D &lt;x&gt;.exe</Command>"));
    assert!(xml.contains("<Arguments>--minimized</Arguments>"));
    assert!(xml.contains("<RunLevel>HighestAvailable</RunLevel>"));
}

#[test]
fn schtasks_parameters() {
    assert_eq!(
        create_task_params("C:\\tmp\\task.xml"),
        format!("/Create /TN \"{}\" /XML \"C:\\tmp\\task.xml\" /F", TASK_NAME)
    );
    assert_eq!(delete_task_params(), "/Delete /TN \"MonitorBrightnessControl-AdminAutostart\" /F");
}

#[test]
fn autostart_without_task_scheduler() {
    assert_eq!(status(), Err("administrator autostart via Task Scheduler is only available on Windows".to_string()));
    assert_eq!(brightness_core::autostart::set(true), Err("administrator autostart via Task Scheduler is only available on Windows".to_string()));
    assert!(brightness_core::autostart::set(false).is_err());
}

#[test]
fn utf16le_file_bytes() {
    assert_eq!(encode_utf16("A\u{20AC}"), vec![0x0041, 0x20AC]);
    assert_eq!(encode_utf16("\u{1F600}"), vec![0xD83D, 0xDE00]);
    assert_eq!(utf16le_with_bom(&[0x0041, 0x20AC]), vec![0xFF, 0xFE, 0x41, 0x00, 0xAC, 0x20]);
    assert_eq!(utf16le_with_bom(&[]), vec![0xFF, 0xFE]);
}

#[test]
fn menu_ids_and_commands() {
    assert_eq!(set_item_id("m1", 60), "set:m1::60");
    assert_eq!(up_item_id("m1"), "up:m1");
    assert_eq!(down_item_id("m1"), "down:m1");
    assert_eq!(profile_item_id("night"), "profile:night");
    assert_eq!(parse_menu_id("show"), MenuCommand::Show);
    assert_eq!(parse_menu_id("quit"), MenuCommand::Quit);
    assert_eq!(parse_menu_id("all-up"), MenuCommand::AllUp);
    assert_eq!(parse_menu_id("all-down"), MenuCommand::AllDown);
    assert_eq!(parse_menu_id("toggle-night"), MenuCommand::ToggleNight);
    assert_eq!(parse_menu_id("profile:night"), MenuCommand::Profile("night".to_string()));
    assert_eq!(parse_menu_id("up:m1"), MenuCommand::Up("m1".to_string()));
    assert_eq!(parse_menu_id("down:m1"), MenuCommand::Down("m1".to_string()));
    assert_eq!(parse_menu_id("set:m1::60"), MenuCommand::SetPercent("m1".to_string(), "60".to_string()));
    assert_eq!(
        parse_menu_id("set:win:\\\\.\\DISPLAY1#0::5"),
        MenuCommand::SetPercent("win:\\\\.\\DISPLAY1#0".to_string(), "5".to_string())
    );
    assert_eq!(parse_menu_id("set:a::b::c"), MenuCommand::SetPercent("a".to_string(), "b::c".to_string()));
    assert_eq!(parse_menu_id("set:nocolons"), MenuCommand::Unknown);
    assert_eq!(parse_menu_id("Show"), MenuCommand::Unknown);
    assert_eq!(parse_menu_id(""), MenuCommand::Unknown);
}

#[test]
fn menu_ids_roundtrip_concrete() {
    for p in BRIGHTNESS_PRESETS {
        let id = set_item_id("mon#1", p);
        assert_eq!(parse_menu_id(&id), MenuCommand::SetPercent("mon#1".to_string(), p.to_string()));
    }
    assert_eq!(parse_menu_id(&up_item_id("x:y")), MenuCommand::Up("x:y".to_string()));
    assert_eq!(parse_menu_id(&down_item_id("")), MenuCommand::Down(String::new()));
    assert_eq!(parse_menu_id(&profile_item_id("p::q")), MenuCommand::Profile("p::q".to_string()));
}

#[test]
fn profile_templates() {
    let t = default_profile_templates();
    let v: Vec<(&str, &str, u8, u8, u16)> =
        t.iter().map(|p| (p.id.as_str(), p.name.as_str(), p.brightness, p.contrast, p.color_preset)).collect();
    assert_eq!(
        v,
        vec![
            ("gaming", "Gaming", 100, 75, 2),
            ("movie", "Movie / Video", 35, 60, 4),
            ("reading", "Reading / Night", 25, 50, 4),
            ("office", "Office / Productivity", 75, 60, 5),
            ("photo", "Photo editing", 70, 50, 1),
        ]
    );
}

#[test]
fn set_results_and_vcp_views() {
    let ok = SetResult::from_outcome("m".to_string(), Ok(()));
    assert_eq!((ok.id.as_str(), ok.ok, ok.error), ("m", true, None));
    let bad = SetResult::from_outcome("n".to_string(), Err("nope".to_string()));
    assert_eq!((bad.id.as_str(), bad.ok, bad.error), ("n", false, Some("nope".to_string())));
    let v = VcpView::from_value(VcpValue::new(3, 9));
    assert_eq!(v, VcpView { current: 3, maximum: 9 });
}

#[test]
fn profiles_match_case_insensitively() {
    let apps = vec!["".to_string(), "Firefox.EXE".to_string(), "firefox.exe".to_string()];
    assert_eq!(find_profile_for_app(&apps, "firefox.exe"), Some(1));
    assert_eq!(find_profile_for_app(&apps, "FIREFOX.exe"), Some(1));
    assert_eq!(find_profile_for_app(&apps, ""), None);
    assert_eq!(find_profile_for_app(&apps, "cs2.exe"), None);
    assert_eq!(find_profile_for_app(&apps, "firefox.ex"), None);
}

#[test]
fn task_xml_file_is_utf16le_with_bom() {
    let bytes = task_xml_file("C:\\a&b.exe");
    let xml = build_task_xml("C:\\a&b.exe");
    let mut expected = vec![0xFF, 0xFE];
    for u in xml.encode_utf16() {
        expected.extend_from_slice(&u.to_le_bytes());
    }
    assert_eq!(bytes, expected);
    assert_eq!(&bytes[..6], &[0xFF, 0xFE, b'<', 0x00, b'?', 0x00]);
}

#[test]
fn escaped_text_has_no_markup() {
    let e = xml_escape("<a href=\"x\">'&'</a>");
    assert!(!e.contains('<') && !e.contains('>') && !e.contains('"') && !e.contains('\''));
    assert_eq!(e, "&lt;a href=&quot;x&quot;&gt;&apos;&amp;&apos;&lt;/a&gt;");
}

fn unescape(t: &str) -> String {
    t.replace("&apos;", "'").replace("&quot;", "\"").replace("&gt;", ">").replace("&lt;", "<").replace("&amp;", "&")
}

#[test]
fn escape_roundtrip_concrete() {
    for s in ["a&<b", "&lt;", "x'y\"z>", "", "&amp;amp;"] {
        assert_eq!(unescape(&xml_escape(s)), s);
    }
    assert_eq!(xml_escape("a&<b"), "a&amp;&lt;b");
}

#[test]
fn backends_by_platform() {
    assert!(matches!(backend_for(Platform::Linux), Ok(Backend::Linux)));
    assert!(matches!(backend_for(Platform::Windows), Ok(Backend::Windows)));
    assert!(matches!(backend_for(Platform::MacOs), Ok(Backend::MacOs)));
    match backend_for(Platform::Other) {
        Err(Error::Unsupported(m)) => assert_eq!(m, "brightness-core has no backend for this platform"),
        _ => panic!("expected unsupported"),
    }
}

#[test]
fn lifecycle_decisions() {
    let mut l = Lifecycle::new();
    assert!(!l.quitting());
    assert_eq!(l.on_event(&AppEvent::ExitRequested), AppAction::PreventExit);
    assert_eq!(l.on_event(&AppEvent::CloseRequested("main".to_string())), AppAction::HideAndPreventClose);
    assert_eq!(l.on_event(&AppEvent::CloseRequested("about".to_string())), AppAction::Nothing);
    l.request_quit();
    assert!(l.quitting());
    assert_eq!(l.on_event(&AppEvent::ExitRequested), AppAction::AllowExit);
    assert_eq!(l.on_event(&AppEvent::CloseRequested("main".to_string())), AppAction::HideAndPreventClose);
}

#[test]
fn hotkey_decisions() {
    assert_eq!(hotkey_action(HotkeyKind::BrightnessUp, true, false, None), HotkeyAction::StepUp);
    assert_eq!(hotkey_action(HotkeyKind::BrightnessDown, true, false, None), HotkeyAction::StepDown);
    assert_eq!(hotkey_action(HotkeyKind::Blackout, true, true, Some(true)), HotkeyAction::Blackout);
    assert_eq!(hotkey_action(HotkeyKind::ToggleNight, true, false, None), HotkeyAction::Night { on: true });
    assert_eq!(hotkey_action(HotkeyKind::ToggleNight, true, true, None), HotkeyAction::Night { on: false });
    assert_eq!(hotkey_action(HotkeyKind::ToggleWindow, true, false, Some(true)), HotkeyAction::Hide);
    assert_eq!(hotkey_action(HotkeyKind::ToggleWindow, true, false, Some(false)), HotkeyAction::ShowAndFocus);
    assert_eq!(hotkey_action(HotkeyKind::ToggleWindow, true, false, None), HotkeyAction::Nothing);
    assert_eq!(hotkey_action(HotkeyKind::BrightnessUp, false, false, None), HotkeyAction::Nothing);
    assert_eq!(hotkey_action(HotkeyKind::ToggleNight, false, true, None), HotkeyAction::Nothing);
}

#[test]
fn io_errors_convert() {
    let e: Error = std::io::Error::new(std::io::ErrorKind::Other, "gone").into();
    assert!(matches!(e, Error::Io(_)));
    assert_eq!(e.to_string(), "I/O error: gone");
}
