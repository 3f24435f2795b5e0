//! The lines exchanged with the compositor over its IPC socket: requests the applet
//! writes, and replies and events it reads, turned into the library's types.
use crate::model::{NiriAction, NiriEvent, WindowInfo, WorkspaceInfo};
use crate::state::ActionView;
use crate::text::push_char;
use niri_ipc::Event;
use vstd::prelude::*;

verus! {

#[verifier::external_type_specification]
#[verifier::external_body]
pub struct ExNiriIpcEvent(niri_ipc::Event);

#[verifier::external_type_specification]
#[verifier::external_body]
pub struct ExNiriIpcWindow(niri_ipc::Window);

#[verifier::external_type_specification]
#[verifier::external_body]
pub struct ExNiriIpcWorkspace(niri_ipc::Workspace);

#[verifier::external_type_specification]
#[verifier::external_body]
pub struct ExNiriIpcAction(niri_ipc::Action);

/// A request the applet sends to the compositor.
#[derive(Clone, Debug)]
pub enum NiriRequest {
    /// The list of windows.
    Windows,
    /// The list of workspaces.
    Workspaces,
    /// Switch the connection to a stream of events.
    EventStream,
    /// Carry out an action.
    Action(NiriAction),
}

/// The abstract content of a `NiriRequest`.
pub enum RequestView {
    Windows,
    Workspaces,
    EventStream,
    Action(ActionView),
}

impl View for NiriRequest {
    type V = RequestView;

    open spec fn view(&self) -> RequestView {
        match self {
            NiriRequest::Windows => RequestView::Windows,
            NiriRequest::Workspaces => RequestView::Workspaces,
            NiriRequest::EventStream => RequestView::EventStream,
            NiriRequest::Action(a) => RequestView::Action(a@),
        }
    }
}

/// The JSON text of a request, as niri's IPC crate encodes it.
pub uninterp spec fn request_json(req: RequestView) -> Seq<char>;

/// The event an event-stream line holds, if it parses as one.
pub uninterp spec fn event_of_line(line: Seq<char>) -> Option<NiriEvent>;

/// The windows a reply line holds, if it is a successful window-list reply.
pub uninterp spec fn windows_reply(line: Seq<char>) -> Option<Seq<WindowInfo>>;

/// The workspaces a reply line holds, if it is a successful workspace-list reply.
pub uninterp spec fn workspaces_reply(line: Seq<char>) -> Option<Seq<WorkspaceInfo>>;

/// Whether a reply line parses as a successful reply.
pub uninterp spec fn reply_ok(line: Seq<char>) -> bool;

/// Trusted conversion: the fields of a niri window that the applet reads.
#[verifier::external_body]
fn window_info_of(w: niri_ipc::Window) -> WindowInfo {
    WindowInfo {
        id: w.id,
        title: w.title,
        app_id: w.app_id,
        workspace_id: w.workspace_id,
        is_focused: w.is_focused,
        is_urgent: w.is_urgent,
        pos_in_scrolling_layout: w.layout.pos_in_scrolling_layout,
    }
}

/// Trusted conversion: the fields of a niri workspace that the applet reads.
#[verifier::external_body]
fn workspace_info_of(ws: niri_ipc::Workspace) -> WorkspaceInfo {
    WorkspaceInfo {
        id: ws.id,
        idx: ws.idx,
        name: ws.name,
        output: ws.output,
        is_active: ws.is_active,
        is_focused: ws.is_focused,
    }
}

/// Trusted conversion: a list of niri windows, each as `window_info_of` converts it.
#[verifier::external_body]
fn window_infos_of(ws: Vec<niri_ipc::Window>) -> Vec<WindowInfo> {
    ws.into_iter().map(window_info_of).collect()
}

/// Trusted conversion: a list of niri workspaces, each as `workspace_info_of` converts it.
#[verifier::external_body]
fn workspace_infos_of(ws: Vec<niri_ipc::Workspace>) -> Vec<WorkspaceInfo> {
    ws.into_iter().map(workspace_info_of).collect()
}

/// Trusted conversion: a niri event, one arm per variant the applet reacts to.
#[verifier::external_body]
fn niri_event_of(e: Event) -> NiriEvent {
    match e {
        Event::WorkspacesChanged { workspaces } => NiriEvent::WorkspacesChanged { workspaces: workspace_infos_of(workspaces) },
        Event::WorkspaceActivated { id, focused } => NiriEvent::WorkspaceActivated { id, focused },
        Event::WindowsChanged { windows } => NiriEvent::WindowsChanged { windows: window_infos_of(windows) },
        Event::WindowOpenedOrChanged { window } => NiriEvent::WindowOpenedOrChanged { window: window_info_of(window) },
        Event::WindowClosed { id } => NiriEvent::WindowClosed { id },
        Event::WindowFocusChanged { id } => NiriEvent::WindowFocusChanged { id },
        Event::WindowUrgencyChanged { id, urgent } => NiriEvent::WindowUrgencyChanged { id, urgent },
        Event::WindowLayoutsChanged { changes } => NiriEvent::WindowLayoutsChanged {
            changes: changes.into_iter().map(|(id, l)| (id, l.pos_in_scrolling_layout)).collect(),
        },
        _ => NiriEvent::Other,
    }
}

/// Trusted conversion: a library action as niri's IPC action.
#[verifier::external_body]
fn niri_action_of(a: &NiriAction) -> niri_ipc::Action {
    match a {
        NiriAction::CenterWindow { id } => niri_ipc::Action::CenterWindow { id: Some(*id) },
        NiriAction::FocusWindow { id } => niri_ipc::Action::FocusWindow { id: *id },
        NiriAction::CloseWindow { id } => niri_ipc::Action::CloseWindow { id: Some(*id) },
        NiriAction::FocusWorkspaceDown => niri_ipc::Action::FocusWorkspaceDown {},
        NiriAction::FocusWorkspaceUp => niri_ipc::Action::FocusWorkspaceUp {},
        NiriAction::Spawn { command } => niri_ipc::Action::Spawn { command: command.clone() },
    }
}

/// Trusted: `serde_json::to_string` of the request as `niri_ipc::Request`. The text is
/// named `request_json` of the request. It cannot fail: every request and action the
/// applet sends derives its encoding and holds no map.
#[verifier::external_body]
fn encode_request(req: &NiriRequest) -> (res: String)
    ensures
        res@ == request_json(req@),
{
    let r = match req {
        NiriRequest::Windows => niri_ipc::Request::Windows,
        NiriRequest::Workspaces => niri_ipc::Request::Workspaces,
        NiriRequest::EventStream => niri_ipc::Request::EventStream,
        NiriRequest::Action(a) => niri_ipc::Request::Action(niri_action_of(a)),
    };
    serde_json::to_string(&r).unwrap()
}

/// Trusted: `serde_json::from_str::<niri_ipc::Event>` on the line, converted. The
/// result is named `event_of_line` of the line; an error is its `None`.
#[verifier::external_body]
fn parse_event(line: &str) -> (res: Option<NiriEvent>)
    ensures
        res == event_of_line(line@),
{
    match serde_json::from_str::<Event>(line) {
        Ok(e) => Some(niri_event_of(e)),
        Err(_) => None,
    }
}

/// Trusted: `serde_json::from_str::<niri_ipc::Reply>` on the line, keeping the window
/// list of an `Ok(Response::Windows(..))` reply, converted; named `windows_reply`.
#[verifier::external_body]
fn parse_windows_reply(line: &str) -> (res: Option<Vec<WindowInfo>>)
    ensures
        match res {
            Some(v) => windows_reply(line@) == Some(v@),
            None => windows_reply(line@) is None,
        },
{
    match serde_json::from_str::<niri_ipc::Reply>(line) {
        Ok(Ok(niri_ipc::Response::Windows(w))) => Some(window_infos_of(w)),
        _ => None,
    }
}

/// Trusted: `serde_json::from_str::<niri_ipc::Reply>` on the line, keeping the
/// workspace list of an `Ok(Response::Workspaces(..))` reply, converted; named
/// `workspaces_reply`.
#[verifier::external_body]
fn parse_workspaces_reply(line: &str) -> (res: Option<Vec<WorkspaceInfo>>)
    ensures
        match res {
            Some(v) => workspaces_reply(line@) == Some(v@),
            None => workspaces_reply(line@) is None,
        },
{
    match serde_json::from_str::<niri_ipc::Reply>(line) {
        Ok(Ok(niri_ipc::Response::Workspaces(w))) => Some(workspace_infos_of(w)),
        _ => None,
    }
}

/// Trusted: `serde_json::from_str::<niri_ipc::Reply>` on the line: whether it parses
/// as an `Ok` reply; named `reply_ok`.
#[verifier::external_body]
fn parse_reply_ok(line: &str) -> (res: bool)
    ensures
        res == reply_ok(line@),
{
    matches!(serde_json::from_str::<niri_ipc::Reply>(line), Ok(Ok(_)))
}

/// The line that sends `req`: its JSON text and a newline.
pub fn request_line(req: &NiriRequest) -> (res: String)
    ensures
        res@ == request_json(req@).push('\n'),
{
    let mut line = encode_request(req);
    push_char(&mut line, '\n');
    line
}

/// The event an event-stream line holds; `None` when it does not parse as one,
/// which the applet skips.
pub fn decode_event_line(line: &str) -> (res: Option<NiriEvent>)
    ensures
        res == event_of_line(line@),
{
    parse_event(line)
}

/// The windows of a reply to `NiriRequest::Windows`; none when the reply is not a
/// window list. A line that is not valid reply JSON also gives none: it is taken
/// without a panic.
pub fn windows_from_reply(line: &str) -> (res: Vec<WindowInfo>)
    ensures
        res@ == match windows_reply(line@) {
            Some(v) => v,
            None => Seq::<WindowInfo>::empty(),
        },
{
    match parse_windows_reply(line) {
        Some(v) => v,
        None => Vec::new(),
    }
}

/// The workspaces of a reply to `NiriRequest::Workspaces`; none when the reply is
/// not a workspace list. A line that is not valid reply JSON also gives none: it is
/// taken without a panic.
pub fn workspaces_from_reply(line: &str) -> (res: Vec<WorkspaceInfo>)
    ensures
        res@ == match workspaces_reply(line@) {
            Some(v) => v,
            None => Seq::<WorkspaceInfo>::empty(),
        },
{
    match parse_workspaces_reply(line) {
        Some(v) => v,
        None => Vec::new(),
    }
}

/// Whether a reply line reports success, as opening the event stream needs. A line
/// that is not valid reply JSON gives `false`, without a panic.
pub fn reply_succeeded(line: &str) -> (res: bool)
    ensures
        res == reply_ok(line@),
{
    parse_reply_ok(line)
}

} // verus!
