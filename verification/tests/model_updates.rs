use cosmic_ext_niri_windows::model::{MenuTarget, NiriAction, NiriEvent, WindowInfo, WorkspaceInfo};
use cosmic_ext_niri_windows::state::{AppModel, Command, Message};

fn ws(id: u64, idx: u8, output: &str) -> WorkspaceInfo {
    WorkspaceInfo {
        id,
        idx,
        name: None,
        output: Some(output.to_string()),
        is_active: false,
        is_focused: false,
    }
}

fn win(id: u64, ws_id: u64, app: &str, pos: Option<(usize, usize)>, focused: bool) -> WindowInfo {
    WindowInfo {
        id,
        title: Some(format!("title {id}")),
        app_id: Some(app.to_string()),
        workspace_id: Some(ws_id),
        is_focused: focused,
        is_urgent: false,
        pos_in_scrolling_layout: pos,
    }
}

fn started(output: &str, pinned: Vec<&str>) -> AppModel {
    let mut m = AppModel::new(output.to_string(), pinned.into_iter().map(|s| s.to_string()).collect());
    let wksps = vec![ws(1, 2, "DP-1"), ws(2, 1, "DP-1"), ws(3, 1, "HDMI-1")];
    let wins = vec![
        win(10, 1, "firefox", Some((2, 1)), false),
        win(11, 1, "kitty", Some((1, 1)), true),
        win(12, 2, "kitty", None, false),
        win(13, 3, "code", Some((1, 1)), false),
    ];
    m.update(Message::InitialData { wins, wksps });
    m
}

fn ids(m: &AppModel) -> Vec<(u64, Vec<u64>)> {
    m.display().iter().map(|w| (w.id, w.windows.iter().map(|v| v.id).collect())).collect()
}

#[test]
fn initial_data_keeps_only_this_output() {
    let m = started("DP-1", vec![]);
    // workspaces sorted by index, windows by scrolling position; workspace 3 is elsewhere
    assert_eq!(ids(&m), vec![(2, vec![12]), (1, vec![11, 10])]);
}

#[test]
fn empty_output_name_keeps_every_workspace() {
    let m = started("", vec![]);
    let d = ids(&m);
    assert_eq!(d.len(), 3);
    assert!(d.iter().any(|(id, w)| *id == 3 && w == &vec![13]));
}

#[test]
fn initial_focus_marks_focused_window() {
    let m = started("DP-1", vec![]);
    let focused: Vec<u64> = m.display().iter().flat_map(|w| w.windows.iter()).filter(|v| v.is_focused).map(|v| v.id).collect();
    assert_eq!(focused, vec![11]);
}

#[test]
fn initial_data_requests_icons_once() {
    let mut m = AppModel::new("DP-1".to_string(), vec!["gimp".to_string()]);
    let cs = m.update(Message::InitialData {
        wins: vec![win(10, 1, "kitty", None, false), win(11, 1, "kitty", None, true)],
        wksps: vec![ws(1, 1, "DP-1")],
    });
    let mut lookups = 0;
    let mut icons: Vec<String> = Vec::new();
    for c in &cs {
        match c {
            Command::LookupDesktopPath { app_id, launch } => {
                assert_eq!(app_id, "gimp");
                assert!(!launch);
                lookups += 1;
            }
            Command::ResolveIcons { app_ids } => icons.extend(app_ids.iter().cloned()),
            _ => panic!("unexpected command"),
        }
    }
    assert_eq!(lookups, 1);
    icons.sort();
    assert_eq!(icons, vec!["gimp".to_string(), "kitty".to_string()]);
    // the same window list again asks for nothing new
    let cs = m.update(Message::NiriEvent(NiriEvent::WindowsChanged {
        windows: vec![win(10, 1, "kitty", None, false)],
    }));
    assert!(cs.is_empty());
}

#[test]
fn own_window_is_not_listed() {
    let mut m = AppModel::new(String::new(), vec![]);
    m.update(Message::InitialData {
        wins: vec![win(1, 1, "com.github.ton.CosmicExtNiriWindows", None, false), win(2, 1, "kitty", None, false)],
        wksps: vec![ws(1, 1, "X")],
    });
    assert_eq!(ids(&m), vec![(1, vec![2])]);
}

#[test]
fn untitled_window_shows_default_title() {
    let mut m = AppModel::new(String::new(), vec![]);
    let mut w = win(5, 1, "kitty", None, false);
    w.title = None;
    m.update(Message::InitialData { wins: vec![w], wksps: vec![ws(1, 1, "X")] });
    assert_eq!(m.display()[0].windows[0].title, "Window");
}

#[test]
fn focus_click_focuses_then_centers() {
    let mut m = started("DP-1", vec![]);
    let cs = m.update(Message::FocusWindow(10));
    assert!(matches!(cs.as_slice(), [Command::Niri(NiriAction::FocusWindow { id: 10 })]));
    let cs = m.update(Message::FocusWindow(10));
    assert!(matches!(cs.as_slice(), [Command::Niri(NiriAction::CenterWindow { id: 10 })]));
    let focused: Vec<u64> = m.display().iter().flat_map(|w| w.windows.iter()).filter(|v| v.is_focused).map(|v| v.id).collect();
    assert_eq!(focused, vec![10]);
}

#[test]
fn middle_click_closes_window() {
    let mut m = started("DP-1", vec![]);
    let cs = m.update(Message::CloseWindow(12));
    assert!(matches!(cs.as_slice(), [Command::Niri(NiriAction::CloseWindow { id: 12 })]));
}

#[test]
fn scrolling_respects_cooldown() {
    let mut m = started("DP-1", vec![]);
    // the clock starts with the applet, as the cooldown does
    let cs = m.update(Message::WorkspaceScrollDown { now_ms: 199 });
    assert!(cs.is_empty());
    let cs = m.update(Message::WorkspaceScrollDown { now_ms: 200 });
    assert!(matches!(cs.as_slice(), [Command::Niri(NiriAction::FocusWorkspaceDown)]));
    let cs = m.update(Message::WorkspaceScrollUp { now_ms: 399 });
    assert!(cs.is_empty());
    let cs = m.update(Message::WorkspaceScrollUp { now_ms: 400 });
    assert!(matches!(cs.as_slice(), [Command::Niri(NiriAction::FocusWorkspaceUp)]));
    // a clock reading before the last switch never switches
    let cs = m.update(Message::WorkspaceScrollUp { now_ms: 10 });
    assert!(cs.is_empty());
    let cs = m.update(Message::WorkspaceScrollUp { now_ms: 10_000 });
    assert_eq!(cs.len(), 1);
}

#[test]
fn closing_marked_window_moves_mark() {
    let mut m = started("DP-1", vec![]);
    m.update(Message::NiriEvent(NiriEvent::WindowClosed { id: 11 }));
    assert_eq!(ids(&m), vec![(2, vec![12]), (1, vec![10])]);
    let marked = m.display().iter().flat_map(|w| w.windows.iter()).filter(|v| v.is_focused).count();
    assert_eq!(marked, 1);
}

#[test]
fn window_moving_to_other_output_is_dropped() {
    let mut m = started("DP-1", vec![]);
    m.update(Message::NiriEvent(NiriEvent::WindowOpenedOrChanged { window: win(10, 3, "firefox", None, false) }));
    assert_eq!(ids(&m), vec![(2, vec![12]), (1, vec![11])]);
}

#[test]
fn opened_window_is_added_and_marked() {
    let mut m = started("DP-1", vec![]);
    let cs = m.update(Message::NiriEvent(NiriEvent::WindowOpenedOrChanged { window: win(20, 2, "gimp", Some((0, 0)), true) }));
    assert_eq!(ids(&m), vec![(2, vec![20, 12]), (1, vec![11, 10])]);
    assert!(m.display()[0].windows[0].is_focused);
    assert!(matches!(cs.as_slice(), [Command::ResolveIcons { app_ids }] if app_ids == &vec!["gimp".to_string()]));
}

#[test]
fn workspaces_changed_drops_their_windows() {
    let mut m = started("DP-1", vec![]);
    m.update(Message::NiriEvent(NiriEvent::WorkspacesChanged { workspaces: vec![ws(1, 1, "DP-1")] }));
    assert_eq!(ids(&m), vec![(1, vec![11, 10])]);
}

#[test]
fn focus_change_to_unknown_window_is_ignored() {
    let mut m = started("DP-1", vec![]);
    m.update(Message::NiriEvent(NiriEvent::WindowFocusChanged { id: Some(13) }));
    let focused: Vec<u64> = m.display().iter().flat_map(|w| w.windows.iter()).filter(|v| v.is_focused).map(|v| v.id).collect();
    assert_eq!(focused, vec![11]);
    m.update(Message::NiriEvent(NiriEvent::WindowFocusChanged { id: Some(12) }));
    let focused: Vec<u64> = m.display().iter().flat_map(|w| w.windows.iter()).filter(|v| v.is_focused).map(|v| v.id).collect();
    assert_eq!(focused, vec![12]);
}

#[test]
fn layout_change_reorders_windows() {
    let mut m = started("DP-1", vec![]);
    m.update(Message::NiriEvent(NiriEvent::WindowLayoutsChanged { changes: vec![(10, Some((0, 1))), (99, Some((0, 0)))] }));
    assert_eq!(ids(&m), vec![(2, vec![12]), (1, vec![10, 11])]);
}

#[test]
fn right_click_opens_and_closes_menu() {
    let mut m = started("DP-1", vec![]);
    let cs = m.update(Message::RightClick(MenuTarget::Window { id: 10, app_id: Some("firefox".to_string()) }));
    let popup = match cs.as_slice() {
        [Command::OpenContextMenu { popup }] => *popup,
        _ => panic!("menu not opened"),
    };
    // the same click reaches the applet as a whole and is ignored
    let cs = m.update(Message::RightClick(MenuTarget::Applet));
    assert!(cs.is_empty());
    let cs = m.update(Message::RightClick(MenuTarget::Applet));
    assert!(matches!(cs.as_slice(), [Command::DestroyPopup { popup: p }] if *p == popup));
}

#[test]
fn popup_closed_by_shell_forgets_menu() {
    let mut m = started("DP-1", vec![]);
    let cs = m.update(Message::RightClick(MenuTarget::Applet));
    let popup = match cs.as_slice() {
        [Command::OpenContextMenu { popup }] => *popup,
        _ => panic!("menu not opened"),
    };
    m.update(Message::PopupClosed(popup));
    let cs = m.update(Message::RightClick(MenuTarget::Applet));
    assert!(matches!(cs.as_slice(), [Command::OpenContextMenu { .. }]));
}

#[test]
fn toggle_names_closes_menu() {
    let mut m = started("DP-1", vec![]);
    let cs = m.update(Message::RightClick(MenuTarget::Applet));
    let popup = match cs.as_slice() {
        [Command::OpenContextMenu { popup }] => *popup,
        _ => panic!("menu not opened"),
    };
    let cs = m.update(Message::ToggleShowWorkspaceName(true));
    assert!(m.show_workspace_name());
    assert!(matches!(cs.as_slice(), [Command::DestroyPopup { popup: p }] if *p == popup));
}

#[test]
fn pin_then_unpin_restores_list() {
    let mut m = started("DP-1", vec!["a", "b"]);
    let cs = m.update(Message::PinApp("gimp".to_string()));
    assert!(matches!(&cs[0], Command::SavePinned(p) if p == &vec!["a".to_string(), "b".to_string(), "gimp".to_string()]));
    assert!(matches!(&cs[1], Command::LookupDesktopPath { app_id, launch: false } if app_id == "gimp"));
    let cs = m.update(Message::PinApp("gimp".to_string()));
    assert!(cs.is_empty());
    let cs = m.update(Message::UnpinApp("gimp".to_string()));
    assert!(matches!(&cs[0], Command::SavePinned(p) if p == &vec!["a".to_string(), "b".to_string()]));
    assert_eq!(m.pinned(), &vec!["a".to_string(), "b".to_string()]);
    let cs = m.update(Message::UnpinApp("gimp".to_string()));
    assert!(cs.is_empty());
}

#[test]
fn drag_reorders_and_saves() {
    let mut m = started("DP-1", vec!["a", "b", "c"]);
    m.update(Message::DragStart { app_id: "a".to_string(), index: 0 });
    m.update(Message::DragOver { index: 2 });
    assert_eq!(m.pinned(), &vec!["b".to_string(), "c".to_string(), "a".to_string()]);
    m.update(Message::MouseMove { past_drag_threshold: true });
    let cs = m.update(Message::DragEnd);
    assert!(matches!(cs.as_slice(), [Command::SavePinned(p)] if p == &vec!["b".to_string(), "c".to_string(), "a".to_string()]));
}

#[test]
fn drag_without_motion_launches() {
    let mut m = started("DP-1", vec!["a"]);
    m.update(Message::DragStart { app_id: "a".to_string(), index: 0 });
    let cs = m.update(Message::DragEnd);
    assert!(matches!(cs.as_slice(), [Command::LookupDesktopPath { app_id, launch: true }] if app_id == "a"));
    let cs = m.update(Message::DesktopPathFound { app_id: "a".to_string(), path: Some("/x/a.desktop".to_string()), launch: true });
    assert!(matches!(cs.as_slice(), [Command::Niri(NiriAction::Spawn { command })] if command == &vec!["gio".to_string(), "launch".to_string(), "/x/a.desktop".to_string()]));
    // now the path is known
    let cs = m.update(Message::LaunchApp("a".to_string()));
    assert!(matches!(cs.as_slice(), [Command::Niri(NiriAction::Spawn { command })] if command[2] == "/x/a.desktop"));
}

#[test]
fn launch_without_desktop_file_runs_id() {
    let mut m = started("DP-1", vec![]);
    let cs = m.update(Message::DesktopPathFound { app_id: "foot".to_string(), path: None, launch: true });
    assert!(matches!(cs.as_slice(), [Command::Niri(NiriAction::Spawn { command })] if command == &vec!["foot".to_string()]));
}

#[test]
fn hover_follows_pointer_without_drag() {
    let mut m = started("DP-1", vec!["a", "b"]);
    m.update(Message::DragOver { index: 1 });
    assert_eq!(m.hovered_pinned(), Some("b".to_string()));
    m.update(Message::HoverPinned(None));
    assert_eq!(m.hovered_pinned(), None);
}

#[test]
fn icon_resolved_is_not_requested_again() {
    let mut m = AppModel::new(String::new(), vec![]);
    let cs = m.update(Message::InitialData { wins: vec![win(1, 1, "kitty", None, false)], wksps: vec![ws(1, 1, "X")] });
    assert!(matches!(cs.as_slice(), [Command::ResolveIcons { .. }]));
    m.update(Message::IconResolved { app_id: "kitty".to_string() });
    let cs = m.update(Message::NiriEvent(NiriEvent::WindowOpenedOrChanged { window: win(2, 1, "kitty", None, false) }));
    assert!(cs.is_empty());
}

#[test]
fn workspace_activation_is_exclusive() {
    let mut m = started("DP-1", vec![]);
    let cs = m.update(Message::NiriEvent(NiriEvent::WorkspaceActivated { id: 2, focused: true }));
    assert!(cs.is_empty());
    assert_eq!(ids(&m).len(), 2);
}

#[test]
fn drag_over_definedness_is_reported() {
    let mut m = started("DP-1", vec!["a"]);
    m.update(Message::DragStart { app_id: "x".to_string(), index: 5 });
    assert!(m.drag_over_is_defined(5));
    assert!(m.drag_over_is_defined(3));
    m.update(Message::PinApp("b".to_string()));
    assert!(!m.drag_over_is_defined(0));
}

#[test]
fn ties_are_ordered_by_id() {
    let mut m = AppModel::new(String::new(), vec![]);
    m.update(Message::InitialData {
        wins: vec![
            win(31, 5, "a", None, false),
            win(30, 5, "b", None, false),
            win(32, 5, "c", Some((1, 1)), false),
        ],
        wksps: vec![ws(6, 1, "DP-1"), ws(5, 1, "HDMI-1")],
    });
    assert_eq!(ids(&m), vec![(5, vec![32, 30, 31]), (6, vec![])]);
    // a rebuild from the same state gives the same rows
    m.update(Message::ToggleShowWorkspaceName(true));
    assert_eq!(ids(&m), vec![(5, vec![32, 30, 31]), (6, vec![])]);
}
