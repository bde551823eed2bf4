use brightness_core::foreground::{active_window_id, wm_class};
use brightness_core::tray::{tray_menu, TrayItem, TrayMonitor, TrayNode, TrayProfile};

fn act(id: &str, label: &str) -> TrayItem {
    TrayItem::Action(id.to_string(), label.to_string())
}

fn tail() -> Vec<TrayNode> {
    vec![
        TrayNode::Item(TrayItem::Separator),
        TrayNode::Item(act("show", "Show window")),
        TrayNode::Item(TrayItem::Separator),
        TrayNode::Item(act("quit", "Quit")),
    ]
}

#[test]
fn tray_menu_without_monitors_or_profiles() {
    let menu = tray_menu(&vec![], &vec![]);
    let mut expected = vec![TrayNode::Item(TrayItem::Disabled(
        "no-monitors".to_string(),
        "No monitors detected".to_string(),
    ))];
    expected.extend(tail());
    assert_eq!(menu, expected);
}

#[test]
fn tray_menu_with_a_monitor_and_profiles() {
    let monitors = vec![TrayMonitor { id: "m1".to_string(), name: "DELL".to_string(), status: "60%".to_string() }];
    let profiles = vec![
        TrayProfile { id: "p1".to_string(), name: "Night".to_string(), app_id: String::new() },
        TrayProfile { id: "p2".to_string(), name: "  ".to_string(), app_id: "cs2.exe".to_string() },
    ];
    let menu = tray_menu(&monitors, &profiles);
    let mut sub = Vec::new();
    for v in [100u8, 80, 60, 40, 20, 10, 5, 0] {
        sub.push(act(&format!("set:m1::{v}"), &format!("{v}%")));
    }
    sub.push(TrayItem::Separator);
    sub.push(act("up:m1", "+5%"));
    sub.push(act("down:m1", "-5%"));
    let mut expected = vec![
        TrayNode::Submenu("DELL (60%)".to_string(), sub),
        TrayNode::Item(TrayItem::Separator),
        TrayNode::Item(act("all-up", "All +5%")),
        TrayNode::Item(act("all-down", "All -5%")),
        TrayNode::Item(act("toggle-night", "Toggle night mode")),
        TrayNode::Item(TrayItem::Separator),
        TrayNode::Submenu(
            "Apply profile".to_string(),
            vec![act("profile:p1", "Night"), act("profile:p2", "cs2.exe")],
        ),
    ];
    expected.extend(tail());
    assert_eq!(menu, expected);
}

#[test]
fn xprop_active_window() {
    assert_eq!(
        active_window_id("_NET_ACTIVE_WINDOW(WINDOW): window id # 0x3a00007\n"),
        Some("0x3a00007".to_string())
    );
    assert_eq!(active_window_id("_NET_ACTIVE_WINDOW(WINDOW): window id # 0x0\n"), None);
    assert_eq!(active_window_id("  \n"), None);
    assert_eq!(active_window_id("0x0x"), Some("0x0x".to_string()));
}

#[test]
fn xprop_wm_class() {
    assert_eq!(wm_class("WM_CLASS(STRING) = \"firefox\", \"Firefox\"\n"), Some("firefox".to_string()));
    assert_eq!(wm_class("WM_CLASS(STRING) = \"code\"\n"), Some("code".to_string()));
    assert_eq!(wm_class("WM_CLASS(STRING) = plain = rest"), Some("plain".to_string()));
    assert_eq!(wm_class("WM_CLASS:  not found.\n"), None);
}
