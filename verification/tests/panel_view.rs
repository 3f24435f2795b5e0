use cosmic_ext_niri_windows::stream::{stream_step, StreamAction, StreamEvent, RECONNECT_DELAY_SECS};
use cosmic_ext_niri_windows::menu::{menu_entries, MenuEntry};
use cosmic_ext_niri_windows::model::{MenuTarget, WindowInfo, WorkspaceInfo};
use cosmic_ext_niri_windows::panel::{panel_icon_size, panel_items, pinned_tooltip, u8_to_decimal, PanelItem};
use cosmic_ext_niri_windows::state::{AppModel, Message};
use cosmic_ext_niri_windows::writer::{writer_step, WriterAction, WriterEvent, WriterPhase, WriterState};

fn model(pinned: Vec<&str>, wins: Vec<(u64, u64, Option<&str>)>, names: bool) -> AppModel {
    let mut m = AppModel::new(String::new(), pinned.into_iter().map(|s| s.to_string()).collect());
    let wksps = vec![
        WorkspaceInfo { id: 1, idx: 1, name: Some("web".to_string()), output: None, is_active: true, is_focused: true },
        WorkspaceInfo { id: 2, idx: 2, name: None, output: None, is_active: false, is_focused: false },
        WorkspaceInfo { id: 3, idx: 3, name: None, output: None, is_active: false, is_focused: false },
    ];
    let wins = wins
        .into_iter()
        .map(|(id, ws, app)| WindowInfo {
            id,
            title: Some(format!("t{id}")),
            app_id: app.map(|a| a.to_string()),
            workspace_id: Some(ws),
            is_focused: false,
            is_urgent: false,
            pos_in_scrolling_layout: Some((id as usize, 0)),
        })
        .collect();
    m.update(Message::InitialData { wins, wksps });
    if names {
        m.update(Message::ToggleShowWorkspaceName(true));
    }
    m
}

fn kinds(items: &[PanelItem]) -> String {
    items
        .iter()
        .map(|i| match i {
            PanelItem::Placeholder => "_".to_string(),
            PanelItem::StartDivider => "[".to_string(),
            PanelItem::EndDivider => "]".to_string(),
            PanelItem::Divider => "|".to_string(),
            PanelItem::Pinned { app_id, .. } => format!("p:{app_id}"),
            PanelItem::WorkspaceLabel { text } => format!("l:{text}"),
            PanelItem::Window { id, icon, .. } => format!("w{id}:{icon}"),
        })
        .collect::<Vec<_>>()
        .join(" ")
}

#[test]
fn empty_panel_is_a_placeholder() {
    let m = model(vec![], vec![], false);
    assert_eq!(kinds(&panel_items(&m)), "_");
    let m = model(vec!["kitty"], vec![(5, 1, Some("kitty"))], false);
    assert_ne!(kinds(&panel_items(&m)), "_");
}

#[test]
fn panel_without_names() {
    let m = model(vec!["gimp", "kitty"], vec![(5, 1, Some("kitty")), (6, 3, None)], false);
    assert_eq!(kinds(&panel_items(&m)), "[ p:gimp | w5:kitty | w6:preferences-system-windows-symbolic ]");
}

#[test]
fn panel_with_names() {
    let m = model(vec![], vec![(5, 1, Some("kitty")), (6, 3, None)], true);
    assert_eq!(kinds(&panel_items(&m)), "[ l:web w5:kitty | l:3 w6:preferences-system-windows-symbolic ]");
    let m = model(vec!["gimp"], vec![(5, 1, Some("kitty"))], true);
    assert_eq!(kinds(&panel_items(&m)), "[ p:gimp | l:web w5:kitty ]");
}

#[test]
fn only_closed_pinned_apps_panel() {
    let m = model(vec!["gimp"], vec![], false);
    assert_eq!(kinds(&panel_items(&m)), "[ p:gimp ]");
}

#[test]
fn hovered_pinned_icon_is_marked() {
    let mut m = model(vec!["gimp", "foot"], vec![], false);
    m.update(Message::HoverPinned(Some("foot".to_string())));
    let items = panel_items(&m);
    assert!(matches!(&items[1], PanelItem::Pinned { index: 0, hovered: false, .. }));
    assert!(matches!(&items[2], PanelItem::Pinned { index: 1, hovered: true, .. }));
}

#[test]
fn icon_size_from_panel() {
    assert_eq!(panel_icon_size(32, 40, Some("XS")), 40);
    assert_eq!(panel_icon_size(0, 0, Some("XS")), 16);
    assert_eq!(panel_icon_size(0, 0, Some("S")), 20);
    assert_eq!(panel_icon_size(0, 0, Some("M")), 24);
    assert_eq!(panel_icon_size(0, 0, Some("L")), 32);
    assert_eq!(panel_icon_size(0, 0, Some("XL")), 48);
    assert_eq!(panel_icon_size(0, 0, Some("huge")), 24);
    assert_eq!(panel_icon_size(0, 0, None), 24);
}

#[test]
fn decimal_text() {
    for n in [0u8, 7, 10, 42, 99, 100, 205, 255] {
        assert_eq!(u8_to_decimal(n), n.to_string());
    }
}

#[test]
fn menu_for_window_and_pinned() {
    let mut m = model(vec!["kitty"], vec![(5, 1, Some("kitty"))], false);
    m.update(Message::RightClick(MenuTarget::Window { id: 5, app_id: Some("kitty".to_string()) }));
    let e = menu_entries(&m);
    assert!(matches!(e.as_slice(), [MenuEntry::CloseWindow(5), MenuEntry::PinToggle { pinned: true, .. }, MenuEntry::Divider, MenuEntry::ShowNamesToggle(false)]));
    m.update(Message::RightClick(MenuTarget::Applet));
    m.update(Message::RightClick(MenuTarget::Applet));
    m.update(Message::RightClick(MenuTarget::Pinned { app_id: "gimp".to_string() }));
    let e = menu_entries(&m);
    assert!(matches!(e.as_slice(), [MenuEntry::PinToggle { app_id, pinned: true }, MenuEntry::Divider, MenuEntry::ShowNamesToggle(false)] if app_id == "gimp"));
}

#[test]
fn menu_for_applet() {
    let mut m = model(vec![], vec![], false);
    m.update(Message::RightClick(MenuTarget::Applet));
    assert!(matches!(menu_entries(&m).as_slice(), [MenuEntry::ShowNamesToggle(false)]));
}

#[test]
fn writer_retries_once() {
    let s = WriterState { connected: false, phase: WriterPhase::Idle };
    let (s, a) = writer_step(s, WriterEvent::ActionQueued).unwrap();
    assert!(matches!(a, WriterAction::Connect));
    let (s, a) = writer_step(s, WriterEvent::Connected { ok: true }).unwrap();
    assert!(matches!(a, WriterAction::Send));
    let (s, a) = writer_step(s, WriterEvent::Sent { ok: false }).unwrap();
    assert!(matches!(a, WriterAction::Connect));
    let (s, a) = writer_step(s, WriterEvent::Connected { ok: true }).unwrap();
    assert!(matches!(a, WriterAction::Send));
    let (s, a) = writer_step(s, WriterEvent::Sent { ok: false }).unwrap();
    assert!(matches!(a, WriterAction::Finish));
    assert!(s.connected && matches!(s.phase, WriterPhase::Idle));
    let (_, a) = writer_step(s, WriterEvent::ActionQueued).unwrap();
    assert!(matches!(a, WriterAction::Send));
    assert!(writer_step(WriterState { connected: true, phase: WriterPhase::Idle }, WriterEvent::Sent { ok: true }).is_none());
}

#[test]
fn pinned_tooltip_prefers_desktop_name() {
    assert_eq!(pinned_tooltip("org.gnome.Nautilus", Some("Files".to_string())), "Files");
    assert_eq!(pinned_tooltip("org.gnome.Nautilus", None), "org.gnome.Nautilus");
}

#[test]
fn event_stream_reconnects_after_two_seconds() {
    assert_eq!(RECONNECT_DELAY_SECS, 2);
    assert_eq!(stream_step(StreamEvent::Started), StreamAction::Connect);
    assert_eq!(stream_step(StreamEvent::Connected { ok: true }), StreamAction::OpenStream);
    assert_eq!(stream_step(StreamEvent::Connected { ok: false }), StreamAction::Wait { secs: 2 });
    assert_eq!(stream_step(StreamEvent::StreamOpened { ok: true }), StreamAction::ReadEvent);
    assert_eq!(stream_step(StreamEvent::StreamOpened { ok: false }), StreamAction::Wait { secs: 2 });
    assert_eq!(stream_step(StreamEvent::EventRead { ok: true }), StreamAction::ReadEvent);
    assert_eq!(stream_step(StreamEvent::EventRead { ok: false }), StreamAction::Wait { secs: 2 });
    assert_eq!(stream_step(StreamEvent::Waited), StreamAction::Connect);
}
