use cosmic_ext_niri_windows::ipc::{decode_event_line, reply_succeeded, request_line, windows_from_reply, workspaces_from_reply, NiriRequest};
use cosmic_ext_niri_windows::model::{NiriAction, NiriEvent};

const WINDOW: &str = r#"{"id":7,"title":"Term","app_id":"kitty","pid":null,"workspace_id":1,"is_focused":true,"is_floating":false,"is_urgent":false,"layout":{"pos_in_scrolling_layout":[2,1],"tile_size":[1.0,1.0],"window_size":[1,1],"tile_pos_in_workspace_view":null,"window_offset_in_tile":[0.0,0.0]},"focus_timestamp":null}"#;

const WORKSPACE: &str = r#"{"id":3,"idx":2,"name":"web","output":"DP-1","is_urgent":false,"is_active":true,"is_focused":false,"active_window_id":null}"#;

#[test]
fn request_lines_are_json_with_newline() {
    assert_eq!(request_line(&NiriRequest::Windows), "\"Windows\"\n");
    assert_eq!(request_line(&NiriRequest::EventStream), "\"EventStream\"\n");
    assert_eq!(
        request_line(&NiriRequest::Action(NiriAction::FocusWindow { id: 3 })),
        "{\"Action\":{\"FocusWindow\":{\"id\":3}}}\n"
    );
    assert_eq!(
        request_line(&NiriRequest::Action(NiriAction::CenterWindow { id: 4 })),
        "{\"Action\":{\"CenterWindow\":{\"id\":4}}}\n"
    );
    assert_eq!(
        request_line(&NiriRequest::Action(NiriAction::Spawn { command: vec!["gio".to_string(), "launch".to_string()] })),
        "{\"Action\":{\"Spawn\":{\"command\":[\"gio\",\"launch\"]}}}\n"
    );
}

#[test]
fn event_lines_decode() {
    assert!(matches!(decode_event_line("{\"WindowClosed\":{\"id\":5}}\n"), Some(NiriEvent::WindowClosed { id: 5 })));
    assert!(matches!(
        decode_event_line("{\"WindowFocusChanged\":{\"id\":null}}"),
        Some(NiriEvent::WindowFocusChanged { id: None })
    ));
    assert!(matches!(
        decode_event_line("{\"OverviewOpenedOrClosed\":{\"is_open\":true}}"),
        Some(NiriEvent::Other)
    ));
    assert!(decode_event_line("not json").is_none());
    let line = format!("{{\"WindowOpenedOrChanged\":{{\"window\":{}}}}}", WINDOW);
    match decode_event_line(&line) {
        Some(NiriEvent::WindowOpenedOrChanged { window }) => {
            assert_eq!(window.id, 7);
            assert_eq!(window.title.as_deref(), Some("Term"));
            assert_eq!(window.app_id.as_deref(), Some("kitty"));
            assert_eq!(window.workspace_id, Some(1));
            assert!(window.is_focused);
            assert_eq!(window.pos_in_scrolling_layout, Some((2, 1)));
        }
        _ => panic!("window event not decoded"),
    }
}

#[test]
fn replies_decode() {
    let wins = windows_from_reply(&format!("{{\"Ok\":{{\"Windows\":[{}]}}}}\n", WINDOW));
    assert_eq!(wins.len(), 1);
    assert_eq!(wins[0].id, 7);
    let wss = workspaces_from_reply(&format!("{{\"Ok\":{{\"Workspaces\":[{}]}}}}", WORKSPACE));
    assert_eq!(wss.len(), 1);
    assert_eq!((wss[0].id, wss[0].idx), (3, 2));
    assert_eq!(wss[0].output.as_deref(), Some("DP-1"));
    assert!(windows_from_reply("{\"Err\":\"no\"}").is_empty());
    assert!(windows_from_reply(&format!("{{\"Ok\":{{\"Workspaces\":[{}]}}}}", WORKSPACE)).is_empty());
    assert!(reply_succeeded("{\"Ok\":\"Handled\"}\n"));
    assert!(!reply_succeeded("{\"Err\":\"boom\"}"));
    assert!(!reply_succeeded("garbage"));
}
