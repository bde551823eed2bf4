//! The layout of the tray menu: which entries it shows, with which labels
//! and identifiers, for the monitors and profiles it is built from.

use vstd::prelude::*;

use crate::menu::{
    down_item_id, menu_command_of, menu_ids_roundtrip, profile_item_id, set_item_id, up_item_id, MenuCommandView,
    BRIGHTNESS_PRESETS,
};
use crate::text::{chars_of, dec_digits, push_decimal, trim_bounds, trimmed};

verus! {

/// The step, in percentage points, of the tray's up and down entries.
pub const STEP_PERCENT: u8 = 5;

/// One clickable (or greyed-out) entry, or a separator.
#[derive(Debug, Clone, PartialEq, Eq)]
pub enum TrayItem {
    /// An entry with its identifier and label.
    Action(String, String),
    /// A greyed-out entry with its identifier and label.
    Disabled(String, String),
    Separator,
}

/// A top-level entry: an item, or a submenu with its label and items.
#[derive(Debug, Clone, PartialEq, Eq)]
pub enum TrayNode {
    Item(TrayItem),
    Submenu(String, Vec<TrayItem>),
}

/// [`TrayItem`] as mathematical values.
pub enum TrayItemView {
    Action(Seq<char>, Seq<char>),
    Disabled(Seq<char>, Seq<char>),
    Separator,
}

/// [`TrayNode`] as mathematical values.
pub enum TrayNodeView {
    Item(TrayItemView),
    Submenu(Seq<char>, Seq<TrayItemView>),
}

impl View for TrayItem {
    type V = TrayItemView;

    open spec fn view(&self) -> TrayItemView {
        match self {
            TrayItem::Action(id, label) => TrayItemView::Action(id@, label@),
            TrayItem::Disabled(id, label) => TrayItemView::Disabled(id@, label@),
            TrayItem::Separator => TrayItemView::Separator,
        }
    }
}

pub open spec fn items_view(v: Seq<TrayItem>) -> Seq<TrayItemView> {
    v.map_values(|i: TrayItem| i@)
}

impl View for TrayNode {
    type V = TrayNodeView;

    open spec fn view(&self) -> TrayNodeView {
        match self {
            TrayNode::Item(i) => TrayNodeView::Item(i@),
            TrayNode::Submenu(label, items) => TrayNodeView::Submenu(label@, items_view(items@)),
        }
    }
}

pub open spec fn nodes_view(v: Seq<TrayNode>) -> Seq<TrayNodeView> {
    v.map_values(|n: TrayNode| n@)
}

/// A monitor as the tray shows it: its id, its name, and the text of its
/// current brightness (such as `60%`, or `—` when unknown).
#[derive(Debug, Clone)]
pub struct TrayMonitor {
    pub id: String,
    pub name: String,
    pub status: String,
}

/// A profile as the tray offers it.
#[derive(Debug, Clone)]
pub struct TrayProfile {
    pub id: String,
    pub name: String,
    pub app_id: String,
}

pub open spec fn presets() -> Seq<u8> {
    seq![100u8, 80u8, 60u8, 40u8, 20u8, 10u8, 5u8, 0u8]
}

/// The entry that sets monitor `monitor_id` to `p` percent.
pub open spec fn preset_item(monitor_id: Seq<char>, p: u8) -> TrayItemView {
    TrayItemView::Action("set:"@ + monitor_id + "::"@ + dec_digits(p as nat), dec_digits(p as nat) + "%"@)
}

pub open spec fn step_label(sign: char) -> Seq<char> {
    seq![sign] + dec_digits(STEP_PERCENT as nat) + "%"@
}

/// The entries of a monitor's submenu: the presets, a separator, then up and down.
pub open spec fn monitor_items(monitor_id: Seq<char>) -> Seq<TrayItemView> {
    Seq::new(8, |k: int| preset_item(monitor_id, presets()[k])) + seq![
        TrayItemView::Separator,
        TrayItemView::Action("up:"@ + monitor_id, step_label('+')),
        TrayItemView::Action("down:"@ + monitor_id, step_label('-')),
    ]
}

/// A monitor's submenu, labelled `name (status)`.
pub open spec fn monitor_node(m: TrayMonitor) -> TrayNodeView {
    TrayNodeView::Submenu(m.name@ + " ("@ + m.status@ + ")"@, monitor_items(m.id@))
}

fn step_item(id: String, sign: char) -> (item: TrayItem)
    ensures
        item@ == TrayItemView::Action(id@, step_label(sign)),
{
    let mut label = String::new();
    crate::text::push_char(&mut label, sign);
    push_decimal(&mut label, STEP_PERCENT as u64);
    label.append("%");
    proof {
        reveal_strlit("%");
    }
    assert(label@ =~= step_label(sign));
    TrayItem::Action(id, label)
}

fn monitor_submenu(m: &TrayMonitor) -> (node: TrayNode)
    ensures
        node@ == monitor_node(*m),
{
    let mut items: Vec<TrayItem> = Vec::new();
    let mut k: usize = 0;
    assert(BRIGHTNESS_PRESETS@ =~= presets());
    while k < 8
        invariant
            k <= 8,
            BRIGHTNESS_PRESETS@ == presets(),
            items_view(items@) =~= Seq::new(k as nat, |j: int| preset_item(m.id@, presets()[j])),
        decreases 8 - k,
    {
        let p = BRIGHTNESS_PRESETS[k];
        let id = set_item_id(m.id.as_str(), p);
        let mut label = String::new();
        push_decimal(&mut label, p as u64);
        label.append("%");
        proof {
            reveal_strlit("%");
        }
        let ghost before = items@;
        items.push(TrayItem::Action(id, label));
        assert(items_view(items@) =~= items_view(before).push(preset_item(m.id@, presets()[k as int])));
        k += 1;
    }
    let ghost presets_part = items_view(items@);
    items.push(TrayItem::Separator);
    items.push(step_item(up_item_id(m.id.as_str()), '+'));
    items.push(step_item(down_item_id(m.id.as_str()), '-'));
    assert(items_view(items@) =~= monitor_items(m.id@));
    let mut label = m.name.clone();
    label.append(" (");
    label.append(m.status.as_str());
    label.append(")");
    TrayNode::Submenu(label, items)
}

/// A profile's label: its name, or its app id when the name is blank.
pub open spec fn profile_label(p: TrayProfile) -> Seq<char> {
    if trimmed(p.name@).len() == 0 {
        p.app_id@
    } else {
        p.name@
    }
}

pub open spec fn profile_item(p: TrayProfile) -> TrayItemView {
    TrayItemView::Action("profile:"@ + p.id@, profile_label(p))
}

pub open spec fn action(id: Seq<char>, label: Seq<char>) -> TrayNodeView {
    TrayNodeView::Item(TrayItemView::Action(id, label))
}

pub open spec fn separator() -> TrayNodeView {
    TrayNodeView::Item(TrayItemView::Separator)
}

/// The monitors' part of the menu: a submenu per monitor and the entries
/// that act on all of them, or a greyed-out notice when there are none.
pub open spec fn monitors_part(ms: Seq<TrayMonitor>) -> Seq<TrayNodeView> {
    if ms.len() == 0 {
        seq![TrayNodeView::Item(TrayItemView::Disabled("no-monitors"@, "No monitors detected"@))]
    } else {
        ms.map_values(|m: TrayMonitor| monitor_node(m)) + seq![
            separator(),
            action("all-up"@, "All "@ + step_label('+')),
            action("all-down"@, "All "@ + step_label('-')),
            action("toggle-night"@, "Toggle night mode"@),
        ]
    }
}

/// The profile picker, present only when there is a profile.
pub open spec fn profiles_part(ps: Seq<TrayProfile>) -> Seq<TrayNodeView> {
    if ps.len() == 0 {
        Seq::empty()
    } else {
        seq![
            separator(),
            TrayNodeView::Submenu("Apply profile"@, ps.map_values(|p: TrayProfile| profile_item(p))),
        ]
    }
}

/// The whole tray menu.
pub open spec fn tray_menu_of(ms: Seq<TrayMonitor>, ps: Seq<TrayProfile>) -> Seq<TrayNodeView> {
    monitors_part(ms) + profiles_part(ps) + seq![
        separator(),
        action("show"@, "Show window"@),
        separator(),
        action("quit"@, "Quit"@),
    ]
}

fn label_of(p: &TrayProfile) -> (label: String)
    ensures
        label@ == profile_label(*p),
{
    let cs = chars_of(p.name.as_str());
    let (lo, hi) = trim_bounds(cs.as_slice());
    if lo == hi {
        p.app_id.clone()
    } else {
        p.name.clone()
    }
}

fn all_label(sign: char) -> (label: String)
    ensures
        label@ == "All "@ + step_label(sign),
{
    let mut label = "All ".to_owned();
    crate::text::push_char(&mut label, sign);
    push_decimal(&mut label, STEP_PERCENT as u64);
    label.append("%");
    proof {
        reveal_strlit("%");
    }
    assert(label@ =~= "All "@ + step_label(sign));
    label
}

fn push_action(nodes: &mut Vec<TrayNode>, id: &str, label: String)
    ensures
        nodes_view(final(nodes)@) == nodes_view(old(nodes)@).push(action(id@, label@)),
{
    let ghost before = nodes@;
    nodes.push(TrayNode::Item(TrayItem::Action(id.to_owned(), label)));
    assert(nodes_view(nodes@) =~= nodes_view(before).push(action(id@, label@)));
}

fn push_separator(nodes: &mut Vec<TrayNode>)
    ensures
        nodes_view(final(nodes)@) == nodes_view(old(nodes)@).push(separator()),
{
    let ghost before = nodes@;
    nodes.push(TrayNode::Item(TrayItem::Separator));
    assert(nodes_view(nodes@) =~= nodes_view(before).push(separator()));
}

/// Lay out the tray menu for `monitors` and `profiles`.
pub fn tray_menu(monitors: &Vec<TrayMonitor>, profiles: &Vec<TrayProfile>) -> (menu: Vec<TrayNode>)
    ensures
        nodes_view(menu@) == tray_menu_of(monitors@, profiles@),
{
    let mut nodes: Vec<TrayNode> = Vec::new();
    if monitors.len() == 0 {
        nodes.push(
            TrayNode::Item(
                TrayItem::Disabled("no-monitors".to_owned(), "No monitors detected".to_owned()),
            ),
        );
    } else {
        let mut k: usize = 0;
        while k < monitors.len()
            invariant
                k <= monitors@.len(),
                nodes_view(nodes@) =~= monitors@.take(k as int).map_values(|m: TrayMonitor| monitor_node(m)),
            decreases monitors@.len() - k,
        {
            let ghost before = nodes@;
            nodes.push(monitor_submenu(&monitors[k]));
            assert(monitors@.take(k + 1) =~= monitors@.take(k as int).push(monitors@[k as int]));
            assert(nodes_view(nodes@) =~= nodes_view(before).push(monitor_node(monitors@[k as int])));
            k += 1;
        }
        assert(monitors@.take(k as int) =~= monitors@);
        push_separator(&mut nodes);
        push_action(&mut nodes, "all-up", all_label('+'));
        push_action(&mut nodes, "all-down", all_label('-'));
        push_action(&mut nodes, "toggle-night", "Toggle night mode".to_owned());
    }
    assert(nodes_view(nodes@) =~= monitors_part(monitors@));
    if profiles.len() > 0 {
        let mut items: Vec<TrayItem> = Vec::new();
        let mut k: usize = 0;
        while k < profiles.len()
            invariant
                k <= profiles@.len(),
                items_view(items@) =~= profiles@.take(k as int).map_values(|p: TrayProfile| profile_item(p)),
            decreases profiles@.len() - k,
        {
            let p = &profiles[k];
            let ghost before = items@;
            items.push(TrayItem::Action(profile_item_id(p.id.as_str()), label_of(p)));
            assert(profiles@.take(k + 1) =~= profiles@.take(k as int).push(profiles@[k as int]));
            assert(items_view(items@) =~= items_view(before).push(profile_item(profiles@[k as int])));
            k += 1;
        }
        assert(profiles@.take(k as int) =~= profiles@);
        push_separator(&mut nodes);
        let ghost before = nodes@;
        nodes.push(TrayNode::Submenu("Apply profile".to_owned(), items));
        assert(nodes_view(nodes@) =~= nodes_view(before).push(
            TrayNodeView::Submenu("Apply profile"@, profiles@.map_values(|p: TrayProfile| profile_item(p))),
        ));
    }
    assert(nodes_view(nodes@) =~= monitors_part(monitors@) + profiles_part(profiles@));
    push_separator(&mut nodes);
    push_action(&mut nodes, "show", "Show window".to_owned());
    push_separator(&mut nodes);
    push_action(&mut nodes, "quit", "Quit".to_owned());
    assert(nodes_view(nodes@) =~= tray_menu_of(monitors@, profiles@));
    nodes
}

/// Each monitor gets its own submenu, in the monitors' order: the `k`-th
/// entry of the menu is labelled with monitor `k`'s name and status, and its
/// items set monitor `k` to each preset and step monitor `k` up and down;
/// a click on the step items reads back as a command for monitor `k`.
pub proof fn submenu_per_monitor(ms: Seq<TrayMonitor>, ps: Seq<TrayProfile>, k: int)
    requires
        0 <= k < ms.len(),
    ensures
        tray_menu_of(ms, ps)[k] matches TrayNodeView::Submenu(label, items) && {
            &&& label == ms[k].name@ + " ("@ + ms[k].status@ + ")"@
            &&& items.len() == 11
            &&& forall|j: int|
                0 <= j < 8 ==> (#[trigger] items[j] matches TrayItemView::Action(id, _) && id == "set:"@
                    + ms[k].id@ + "::"@ + dec_digits(BRIGHTNESS_PRESETS@[j] as nat))
            &&& items[8] is Separator
            &&& items[9] matches TrayItemView::Action(id, _) && id == "up:"@ + ms[k].id@
                && menu_command_of(id) == MenuCommandView::Up(ms[k].id@)
            &&& items[10] matches TrayItemView::Action(id, _) && id == "down:"@ + ms[k].id@
                && menu_command_of(id) == MenuCommandView::Down(ms[k].id@)
        },
{
    let menu = tray_menu_of(ms, ps);
    assert(ms.len() > 0);
    assert(menu[k] == monitor_node(ms[k]));
    assert(BRIGHTNESS_PRESETS@ =~= presets());
    menu_ids_roundtrip(ms[k].id@, Seq::empty(), 0);
}

} // verus!
