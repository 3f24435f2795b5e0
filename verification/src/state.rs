//! The applet's state and how each message changes it: a state machine from the
//! current state and a message to the next state and the commands to carry out.
use crate::display::{display_consistent, keyed_windows, keyed_workspaces, map_keys, rebuild_display, rows_of};
use crate::model::{clone_opt_text, opt_text, MenuTarget, NiriAction, NiriEvent, WindowInfo, WorkspaceInfo, WorkspaceRow, WorkspaceView};
use crate::pinned::{find_pinned, move_pinned, move_spec, pin, pin_spec, unpin, unpin_spec};
use crate::raw::{
    activate, activate_workspace, apply_layout_changes, apply_layouts, belongs, icon_key, icons_needed, map_windows,
    map_workspaces, on_output, pick_focus, refocused, retain_belonging, retain_windows, window_belongs,
    window_icon_key, windows_from, workspaces_from, lemma_workspaces_from, lemma_windows_from, lemma_apply_layouts,
};
use crate::text::{owned, text_eq};
use crate::texts::{texts_view, TextMap, TextSet};
use std::collections::HashMap;
use vstd::prelude::*;

verus! {

broadcast use vstd::std_specs::hash::group_hash_axioms;

/// Work the applet asks its surroundings to do after a message.
#[derive(Clone, Debug)]
pub enum Command {
    /// Send a request to the compositor.
    Niri(NiriAction),
    /// Write the pinned list to the configuration file.
    SavePinned(Vec<String>),
    /// Open the context menu popup with this id.
    OpenContextMenu { popup: u64 },
    /// Close the popup with this id.
    DestroyPopup { popup: u64 },
    /// Look up icons for these application ids and answer with `IconResolved`.
    ResolveIcons { app_ids: Vec<String> },
    /// Find the desktop file of an application and answer with `DesktopPathFound`.
    LookupDesktopPath { app_id: String, launch: bool },
}

/// The abstract content of a `NiriAction`.
pub enum ActionView {
    CenterWindow(u64),
    FocusWindow(u64),
    CloseWindow(u64),
    FocusWorkspaceDown,
    FocusWorkspaceUp,
    Spawn(Seq<Seq<char>>),
}

/// The abstract content of a `Command`.
pub enum CommandView {
    Niri(ActionView),
    SavePinned(Seq<Seq<char>>),
    OpenContextMenu(u64),
    DestroyPopup(u64),
    ResolveIcons(Seq<Seq<char>>),
    LookupDesktopPath(Seq<char>, bool),
}

impl View for NiriAction {
    type V = ActionView;

    open spec fn view(&self) -> ActionView {
        match self {
            NiriAction::CenterWindow { id } => ActionView::CenterWindow(*id),
            NiriAction::FocusWindow { id } => ActionView::FocusWindow(*id),
            NiriAction::CloseWindow { id } => ActionView::CloseWindow(*id),
            NiriAction::FocusWorkspaceDown => ActionView::FocusWorkspaceDown,
            NiriAction::FocusWorkspaceUp => ActionView::FocusWorkspaceUp,
            NiriAction::Spawn { command } => ActionView::Spawn(texts_view(command@)),
        }
    }
}

impl View for Command {
    type V = CommandView;

    open spec fn view(&self) -> CommandView {
        match self {
            Command::Niri(a) => CommandView::Niri(a@),
            Command::SavePinned(p) => CommandView::SavePinned(texts_view(p@)),
            Command::OpenContextMenu { popup } => CommandView::OpenContextMenu(*popup),
            Command::DestroyPopup { popup } => CommandView::DestroyPopup(*popup),
            Command::ResolveIcons { app_ids } => CommandView::ResolveIcons(texts_view(app_ids@)),
            Command::LookupDesktopPath { app_id, launch } => CommandView::LookupDesktopPath(app_id@, *launch),
        }
    }
}

/// The abstract content of a list of commands.
pub open spec fn commands_view(cs: Seq<Command>) -> Seq<CommandView> {
    cs.map_values(|c: Command| c@)
}

/// What the applet is told.
#[derive(Clone, Debug)]
pub enum Message {
    /// A popup was closed by the shell.
    PopupClosed(u64),
    /// The compositor reported an event.
    NiriEvent(NiriEvent),
    /// The windows and workspaces fetched at startup.
    InitialData { wins: Vec<WindowInfo>, wksps: Vec<WorkspaceInfo> },
    /// The icon of an application is now available.
    IconResolved { app_id: String },
    /// Left click on a window.
    FocusWindow(u64),
    /// Middle click on a window, or "Close Window" in its menu.
    CloseWindow(u64),
    /// Scrolling down, at `now_ms` milliseconds on the applet's clock (which starts
    /// at 0 when the applet does).
    WorkspaceScrollDown { now_ms: u64 },
    /// Scrolling up, as above.
    WorkspaceScrollUp { now_ms: u64 },
    /// The "Show workspace names" switch.
    ToggleShowWorkspaceName(bool),
    /// Right click on the applet, a window or a pinned application.
    RightClick(MenuTarget),
    /// The pointer moved; `past_drag_threshold` tells whether it is now far enough
    /// from where a drag started to count as a drag.
    MouseMove { past_drag_threshold: bool },
    PinApp(String),
    UnpinApp(String),
    LaunchApp(String),
    HoverPinned(Option<String>),
    DragStart { app_id: String, index: usize },
    DragOver { index: usize },
    DragEnd,
    /// The answer to `LookupDesktopPath`.
    DesktopPathFound { app_id: String, path: Option<String>, launch: bool },
}

/// The abstract state of the applet.
pub struct ModelView {
    pub output: Seq<char>,
    pub windows: Map<u64, WindowInfo>,
    pub workspaces: Map<u64, WorkspaceInfo>,
    pub display: Seq<WorkspaceRow>,
    pub icons_cached: Set<Seq<char>>,
    pub icons_pending: Set<Seq<char>>,
    pub last_focused: Option<u64>,
    pub show_workspace_name: bool,
    pub menu: Option<u64>,
    pub next_popup: u64,
    pub pinned: Seq<Seq<char>>,
    pub desktop_paths: Map<Seq<char>, Seq<char>>,
    pub hovered: Option<Seq<char>>,
    pub menu_target: Option<MenuTarget>,
    pub ignore_applet_click: bool,
    pub dragged: Option<(Seq<char>, usize)>,
    pub drag_moved: bool,
    /// When the last workspace switch by scrolling happened, on the applet's clock.
    pub last_scroll: u64,
}

/// What holds of every state the applet reaches: only workspaces of its output are
/// kept, only windows on them, and the panel shows exactly those.
pub open spec fn model_inv(v: ModelView) -> bool {
    &&& keyed_windows(v.windows)
    &&& keyed_workspaces(v.workspaces)
    &&& forall|k: u64| #[trigger] v.workspaces.contains_key(k) ==> on_output(v.workspaces[k], v.output)
    &&& forall|k: u64| #[trigger] v.windows.contains_key(k) ==> belongs(v.windows[k], v.workspaces)
    &&& display_consistent(v.display, v.workspaces, v.windows, v.last_focused)
}

/// The icon names that still need a lookup.
pub open spec fn missing_icons(cached: Set<Seq<char>>, pending: Set<Seq<char>>, needed: Set<Seq<char>>) -> Set<Seq<char>> {
    needed.difference(cached).difference(pending)
}

/// `cs` asks for the icons `r`: nothing when there are none, else one request that
/// names each of them once.
pub open spec fn icon_request(cs: Seq<CommandView>, r: Set<Seq<char>>) -> bool {
    if r.is_empty() {
        cs.len() == 0
    } else {
        &&& cs.len() == 1
        &&& cs[0] matches CommandView::ResolveIcons(ids)
        &&& ids.to_set() == r
        &&& ids.no_duplicates()
    }
}

/// The commands for the icons of the state `v` that are neither known nor
/// requested, and the state once they are marked as requested.
pub open spec fn icons_spawned(v: ModelView, post: ModelView, cs: Seq<CommandView>) -> bool {
    let r = missing_icons(v.icons_cached, v.icons_pending, icons_needed(v.windows, v.pinned));
    &&& post == (ModelView { icons_pending: v.icons_pending.union(r), ..v })
    &&& icon_request(cs, r)
}

/// The desktop file lookups for pinned applications whose desktop file is not known.
pub open spec fn pinned_lookups(pinned: Seq<Seq<char>>, paths: Map<Seq<char>, Seq<char>>) -> Seq<CommandView> {
    pinned.filter(|p: Seq<char>| !paths.contains_key(p)).map_values(|p: Seq<char>| CommandView::LookupDesktopPath(p, false))
}

/// The command line that opens a desktop file.
pub open spec fn gio_launch(path: Seq<char>) -> Seq<Seq<char>> {
    seq!["gio"@, "launch"@, path]
}

/// The id the next popup gets after `p`.
pub open spec fn next_id(p: u64) -> u64 {
    if p == u64::MAX {
        0
    } else {
        (p + 1) as u64
    }
}

/// The state after the panel content is rebuilt: only the shown rows may differ.
pub open spec fn redisplayed(pre: ModelView, post: ModelView) -> bool {
    post == (ModelView { display: post.display, ..pre })
}

/// Launching an application: through its desktop file when that is known, else a
/// lookup for it.
pub open spec fn launch_post(pre: ModelView, post: ModelView, a: Seq<char>, cs: Seq<CommandView>) -> bool {
    &&& post == pre
    &&& if pre.desktop_paths.contains_key(a) {
        cs == seq![CommandView::Niri(ActionView::Spawn(gio_launch(pre.desktop_paths[a])))]
    } else {
        cs == seq![CommandView::LookupDesktopPath(a, true)]
    }
}

/// Closing the context menu, if it is open, as pinning and unpinning do.
pub open spec fn menu_closed(pre: ModelView, post: ModelView, cs: Seq<CommandView>) -> bool {
    match pre.menu {
        Some(p) => post.menu is None && post.menu_target is None && cs == seq![CommandView::DestroyPopup(p)],
        None => post.menu == pre.menu && post.menu_target == pre.menu_target && cs.len() == 0,
    }
}

/// Left click on a window: a second click on the marked window centers it; a click
/// on another window marks it and asks the compositor to focus it.
pub open spec fn focus_window_post(pre: ModelView, post: ModelView, id: u64, cs: Seq<CommandView>) -> bool {
    if pre.last_focused == Some(id) {
        post == pre && cs == seq![CommandView::Niri(ActionView::CenterWindow(id))]
    } else {
        redisplayed(ModelView { last_focused: Some(id), ..pre }, post)
            && cs == seq![CommandView::Niri(ActionView::FocusWindow(id))]
    }
}

/// The least time between two workspace switches by scrolling, in milliseconds.
pub const SCROLL_COOLDOWN_MS: u64 = 200;

/// Whether a scroll at `now` comes at least the cooldown after the switch at `last`.
pub open spec fn cooldown_over(last: u64, now: u64) -> bool {
    now >= last + SCROLL_COOLDOWN_MS
}

/// Scrolling at `now` switches workspace in the scroll's direction when the cooldown
/// since the last switch is over, and then counts from `now`; otherwise nothing
/// happens.
pub open spec fn scroll_post(pre: ModelView, post: ModelView, down: bool, now: u64, cs: Seq<CommandView>) -> bool {
    if cooldown_over(pre.last_scroll, now) {
        &&& post == (ModelView { last_scroll: now, ..pre })
        &&& cs == seq![CommandView::Niri(if down { ActionView::FocusWorkspaceDown } else { ActionView::FocusWorkspaceUp })]
    } else {
        post == pre && cs.len() == 0
    }
}

/// The shell closed popup `p`: it is forgotten if it is the context menu.
pub open spec fn popup_closed_post(pre: ModelView, post: ModelView, p: u64, cs: Seq<CommandView>) -> bool {
    &&& cs.len() == 0
    &&& post == if pre.menu == Some(p) {
        ModelView { menu: None, ..pre }
    } else {
        pre
    }
}

/// The workspace-name switch sets the option and closes the context menu.
pub open spec fn toggle_names_post(pre: ModelView, post: ModelView, val: bool, cs: Seq<CommandView>) -> bool {
    &&& redisplayed(ModelView { show_workspace_name: val, menu: None, ..pre }, post)
    &&& cs == match pre.menu {
        Some(p) => seq![CommandView::DestroyPopup(p)],
        None => Seq::<CommandView>::empty(),
    }
}

/// A right click closes an open context menu, or else opens one for its target. A
/// right click on a window or pinned icon is also seen by the applet as a whole; the
/// applet's own right click that follows it is ignored once.
pub open spec fn right_click_post(pre: ModelView, post: ModelView, target: MenuTarget, cs: Seq<CommandView>) -> bool {
    if target is Applet && pre.ignore_applet_click {
        post == (ModelView { ignore_applet_click: false, ..pre }) && cs.len() == 0
    } else {
        let ignore = if target is Applet { pre.ignore_applet_click } else { true };
        match pre.menu {
            Some(p) => post == (ModelView { ignore_applet_click: ignore, menu: None, menu_target: None, ..pre })
                && cs == seq![CommandView::DestroyPopup(p)],
            None => post == (ModelView {
                ignore_applet_click: ignore,
                menu: Some(pre.next_popup),
                next_popup: next_id(pre.next_popup),
                menu_target: Some(target),
                ..pre
            }) && cs == seq![CommandView::OpenContextMenu(pre.next_popup)],
        }
    }
}

/// Pointer motion during a drag far enough from its start marks the drag as moved.
pub open spec fn mouse_move_post(pre: ModelView, post: ModelView, past: bool, cs: Seq<CommandView>) -> bool {
    &&& cs.len() == 0
    &&& post == if pre.dragged is Some && past {
        ModelView { drag_moved: true, ..pre }
    } else {
        pre
    }
}

/// Pressing on a pinned icon starts a drag of it.
pub open spec fn drag_start_post(pre: ModelView, post: ModelView, a: Seq<char>, i: usize, cs: Seq<CommandView>) -> bool {
    &&& cs.len() == 0
    &&& post == (ModelView { dragged: Some((a, i)), drag_moved: false, ..pre })
}

/// The pointer entered pinned slot `index`: during a drag the dragged icon moves
/// there; otherwise the slot's icon is highlighted.
pub open spec fn drag_over_post(pre: ModelView, post: ModelView, index: usize, cs: Seq<CommandView>) -> bool {
    &&& cs.len() == 0
    &&& match pre.dragged {
        Some((a, from)) => if from != index && index < pre.pinned.len() {
            redisplayed(
                ModelView {
                    pinned: move_spec(pre.pinned, from as int, index as int, a),
                    dragged: Some((a, index)),
                    hovered: Some(a),
                    ..pre
                },
                post,
            )
        } else {
            post == pre
        },
        None => if index < pre.pinned.len() {
            redisplayed(ModelView { hovered: Some(pre.pinned[index as int]), ..pre }, post)
        } else {
            post == pre
        },
    }
}

/// Moving the dragged icon to slot `index` takes it out of a slot that exists.
pub open spec fn drag_over_defined(v: ModelView, index: usize) -> bool {
    match v.dragged {
        Some((_, from)) => from != index && index < v.pinned.len() ==> from < v.pinned.len(),
        None => true,
    }
}

/// Releasing a drag: without motion it was a click and launches the application;
/// after motion the new order is saved.
pub open spec fn drag_end_post(pre: ModelView, post: ModelView, cs: Seq<CommandView>) -> bool {
    match pre.dragged {
        Some((a, _)) => {
            let mid = ModelView { dragged: None, drag_moved: false, ..pre };
            if !pre.drag_moved {
                launch_post(mid, post, a, cs)
            } else {
                post == mid && cs == seq![CommandView::SavePinned(pre.pinned)]
            }
        },
        None => post == (ModelView { drag_moved: false, ..pre }) && cs.len() == 0,
    }
}

/// The number of commands an icon request for `r` takes.
pub open spec fn icon_count(r: Set<Seq<char>>) -> int {
    if r.is_empty() {
        0
    } else {
        1
    }
}

/// Pinning an application that is not pinned yet appends it, saves the list, looks up
/// its desktop file and icon, and closes the context menu.
pub open spec fn pin_post(pre: ModelView, post: ModelView, a: Seq<char>, cs: Seq<CommandView>) -> bool {
    if pre.pinned.contains(a) {
        post == pre && cs.len() == 0
    } else {
        let pinned = pin_spec(pre.pinned, a);
        let r = missing_icons(pre.icons_cached, pre.icons_pending, icons_needed(pre.windows, pinned));
        let n = 2 + icon_count(r);
        &&& n <= cs.len()
        &&& cs.subrange(0, 2) == seq![CommandView::SavePinned(pinned), CommandView::LookupDesktopPath(a, false)]
        &&& icon_request(cs.subrange(2, n), r)
        &&& redisplayed(ModelView {
            pinned,
            icons_pending: pre.icons_pending.union(r),
            menu: post.menu,
            menu_target: post.menu_target,
            ..pre
        }, post)
        &&& menu_closed(pre, post, cs.subrange(n, cs.len() as int))
    }
}

/// Unpinning a pinned application removes it, saves the list, and closes the
/// context menu.
pub open spec fn unpin_post(pre: ModelView, post: ModelView, a: Seq<char>, cs: Seq<CommandView>) -> bool {
    if !pre.pinned.contains(a) {
        post == pre && cs.len() == 0
    } else {
        let pinned = unpin_spec(pre.pinned, a);
        &&& 1 <= cs.len()
        &&& cs[0] == CommandView::SavePinned(pinned)
        &&& redisplayed(ModelView { pinned, menu: post.menu, menu_target: post.menu_target, ..pre }, post)
        &&& menu_closed(pre, post, cs.subrange(1, cs.len() as int))
    }
}

/// A desktop file lookup came back: a found path is remembered; a launch goes through
/// the desktop file if found, else runs the application id as a command.
pub open spec fn desktop_path_post(
    pre: ModelView,
    post: ModelView,
    a: Seq<char>,
    path: Option<Seq<char>>,
    launch: bool,
    cs: Seq<CommandView>,
) -> bool {
    match path {
        Some(p) => {
            &&& post == (ModelView { desktop_paths: pre.desktop_paths.insert(a, p), ..pre })
            &&& cs == if launch {
                seq![CommandView::Niri(ActionView::Spawn(gio_launch(p)))]
            } else {
                Seq::<CommandView>::empty()
            }
        },
        None => {
            &&& post == pre
            &&& cs == if launch {
                seq![CommandView::Niri(ActionView::Spawn(seq![a]))]
            } else {
                Seq::<CommandView>::empty()
            }
        },
    }
}

/// The startup data: the workspaces of the output and the windows on them replace
/// what was known, a focused window (else any window) is marked, and the desktop
/// files and icons that are missing are looked up.
pub open spec fn initial_data_post(
    pre: ModelView,
    post: ModelView,
    wins: Seq<WindowInfo>,
    wksps: Seq<WorkspaceInfo>,
    cs: Seq<CommandView>,
) -> bool {
    let wss = workspaces_from(wksps, pre.output);
    let ws = windows_from(wins, wss);
    let r = missing_icons(pre.icons_cached, pre.icons_pending, icons_needed(ws, pre.pinned));
    let lookups = pinned_lookups(pre.pinned, pre.desktop_paths);
    &&& refocused(ws, true, pre.last_focused, post.last_focused)
    &&& redisplayed(
        ModelView {
            workspaces: wss,
            windows: ws,
            last_focused: post.last_focused,
            icons_pending: pre.icons_pending.union(r),
            ..pre
        },
        post,
    )
    &&& cs.len() == lookups.len() + icon_count(r)
    &&& cs.subrange(0, lookups.len() as int) == lookups
    &&& icon_request(cs.subrange(lookups.len() as int, cs.len() as int), r)
}

/// A window disappeared from the tracked workspaces: it is dropped, and if it was
/// the marked one, a focused window (else any window) is marked instead.
pub open spec fn removed_post(pre: ModelView, post: ModelView, id: u64) -> bool {
    if pre.windows.contains_key(id) {
        let ws = pre.windows.remove(id);
        &&& if pre.last_focused == Some(id) {
            refocused(ws, true, None, post.last_focused)
        } else {
            post.last_focused == pre.last_focused
        }
        &&& redisplayed(ModelView { windows: ws, last_focused: post.last_focused, ..pre }, post)
    } else {
        post == pre
    }
}

/// New workspace list: the workspaces of the output replace the known ones, and
/// windows on workspaces that are gone are dropped.
pub open spec fn workspaces_changed_post(pre: ModelView, post: ModelView, list: Seq<WorkspaceInfo>, cs: Seq<CommandView>) -> bool {
    let wss = workspaces_from(list, pre.output);
    &&& cs.len() == 0
    &&& redisplayed(ModelView { workspaces: wss, windows: retain_belonging(pre.windows, wss), ..pre }, post)
}

/// A known workspace becomes the active one.
pub open spec fn workspace_activated_post(pre: ModelView, post: ModelView, id: u64, focused: bool, cs: Seq<CommandView>) -> bool {
    &&& cs.len() == 0
    &&& if pre.workspaces.contains_key(id) {
        redisplayed(ModelView { workspaces: activate(pre.workspaces, id, focused), ..pre }, post)
    } else {
        post == pre
    }
}

/// New window list: the windows on tracked workspaces replace the known ones, a
/// window that reports focus is marked, and missing icons are requested.
pub open spec fn windows_changed_post(pre: ModelView, post: ModelView, list: Seq<WindowInfo>, cs: Seq<CommandView>) -> bool {
    let ws = windows_from(list, pre.workspaces);
    let r = missing_icons(pre.icons_cached, pre.icons_pending, icons_needed(ws, pre.pinned));
    &&& refocused(ws, false, pre.last_focused, post.last_focused)
    &&& redisplayed(
        ModelView { windows: ws, last_focused: post.last_focused, icons_pending: pre.icons_pending.union(r), ..pre },
        post,
    )
    &&& icon_request(cs, r)
}

/// A window opened or changed: on a tracked workspace it is stored (and marked if it
/// reports focus); elsewhere it is dropped.
pub open spec fn window_opened_post(pre: ModelView, post: ModelView, window: WindowInfo, cs: Seq<CommandView>) -> bool {
    if belongs(window, pre.workspaces) {
        let ws = pre.windows.insert(window.id, window);
        let r = missing_icons(pre.icons_cached, pre.icons_pending, icons_needed(ws, pre.pinned));
        let last = if window.is_focused { Some(window.id) } else { pre.last_focused };
        &&& redisplayed(
            ModelView { windows: ws, last_focused: last, icons_pending: pre.icons_pending.union(r), ..pre },
            post,
        )
        &&& icon_request(cs, r)
    } else {
        removed_post(pre, post, window.id) && cs.len() == 0
    }
}

/// Keyboard focus moved to a known window: it is marked.
pub open spec fn window_focus_post(pre: ModelView, post: ModelView, id: Option<u64>, cs: Seq<CommandView>) -> bool {
    &&& cs.len() == 0
    &&& match id {
        Some(f) => if pre.windows.contains_key(f) {
            redisplayed(ModelView { last_focused: Some(f), ..pre }, post)
        } else {
            post == pre
        },
        None => post == pre,
    }
}

/// The urgency of a known window changed.
pub open spec fn urgency_post(pre: ModelView, post: ModelView, id: u64, urgent: bool, cs: Seq<CommandView>) -> bool {
    &&& cs.len() == 0
    &&& if pre.windows.contains_key(id) {
        redisplayed(
            ModelView { windows: pre.windows.insert(id, WindowInfo { is_urgent: urgent, ..pre.windows[id] }), ..pre },
            post,
        )
    } else {
        post == pre
    }
}

/// Windows moved in the scrolling layout.
pub open spec fn layouts_post(pre: ModelView, post: ModelView, changes: Seq<(u64, Option<(usize, usize)>)>, cs: Seq<CommandView>) -> bool {
    &&& cs.len() == 0
    &&& redisplayed(ModelView { windows: apply_layouts(pre.windows, changes), ..pre }, post)
}

/// How a compositor event changes the state.
pub open spec fn niri_event_post(pre: ModelView, post: ModelView, e: NiriEvent, cs: Seq<CommandView>) -> bool {
    match e {
        NiriEvent::WorkspacesChanged { workspaces } => workspaces_changed_post(pre, post, workspaces@, cs),
        NiriEvent::WorkspaceActivated { id, focused } => workspace_activated_post(pre, post, id, focused, cs),
        NiriEvent::WindowsChanged { windows } => windows_changed_post(pre, post, windows@, cs),
        NiriEvent::WindowOpenedOrChanged { window } => window_opened_post(pre, post, window, cs),
        NiriEvent::WindowClosed { id } => removed_post(pre, post, id) && cs.len() == 0,
        NiriEvent::WindowFocusChanged { id } => window_focus_post(pre, post, id, cs),
        NiriEvent::WindowUrgencyChanged { id, urgent } => urgency_post(pre, post, id, urgent, cs),
        NiriEvent::WindowLayoutsChanged { changes } => layouts_post(pre, post, changes@, cs),
        NiriEvent::Other => post == pre && cs.len() == 0,
    }
}

/// Messages whose handling is defined: dragging onto a slot moves the dragged icon out
/// of a slot that exists.
pub open spec fn update_allowed(pre: ModelView, msg: Message) -> bool {
    match msg {
        Message::DragOver { index } => drag_over_defined(pre, index),
        _ => true,
    }
}

/// How a message changes the state and which commands it gives.
pub open spec fn update_post(pre: ModelView, post: ModelView, msg: Message, cs: Seq<CommandView>) -> bool {
    match msg {
        Message::PopupClosed(p) => popup_closed_post(pre, post, p, cs),
        Message::NiriEvent(e) => niri_event_post(pre, post, e, cs),
        Message::InitialData { wins, wksps } => initial_data_post(pre, post, wins@, wksps@, cs),
        Message::IconResolved { app_id } => {
            &&& cs.len() == 0
            &&& redisplayed(
                ModelView {
                    icons_pending: pre.icons_pending.remove(app_id@),
                    icons_cached: pre.icons_cached.insert(app_id@),
                    ..pre
                },
                post,
            )
        },
        Message::FocusWindow(id) => focus_window_post(pre, post, id, cs),
        Message::CloseWindow(id) => post == pre && cs == seq![CommandView::Niri(ActionView::CloseWindow(id))],
        Message::WorkspaceScrollDown { now_ms } => scroll_post(pre, post, true, now_ms, cs),
        Message::WorkspaceScrollUp { now_ms } => scroll_post(pre, post, false, now_ms, cs),
        Message::ToggleShowWorkspaceName(val) => toggle_names_post(pre, post, val, cs),
        Message::RightClick(target) => right_click_post(pre, post, target, cs),
        Message::MouseMove { past_drag_threshold } => mouse_move_post(pre, post, past_drag_threshold, cs),
        Message::PinApp(a) => pin_post(pre, post, a@, cs),
        Message::UnpinApp(a) => unpin_post(pre, post, a@, cs),
        Message::LaunchApp(a) => launch_post(pre, post, a@, cs),
        Message::HoverPinned(o) => post == (ModelView { hovered: opt_text(o), ..pre }) && cs.len() == 0,
        Message::DragStart { app_id, index } => drag_start_post(pre, post, app_id@, index, cs),
        Message::DragOver { index } => drag_over_post(pre, post, index, cs),
        Message::DragEnd => drag_end_post(pre, post, cs),
        Message::DesktopPathFound { app_id, path, launch } => desktop_path_post(pre, post, app_id@, opt_text(path), launch, cs),
    }
}

/// Some known window belongs to application `a`.
pub open spec fn app_is_open(windows: Map<u64, WindowInfo>, a: Seq<char>) -> bool {
    exists|k: u64| #[trigger] windows.contains_key(k) && opt_text(windows[k].app_id) == Some(a)
}

pub struct AppModel {
    output: String,
    raw_windows: HashMap<u64, WindowInfo>,
    raw_workspaces: HashMap<u64, WorkspaceInfo>,
    display: Vec<WorkspaceView>,
    icons_cached: TextSet,
    icons_pending: TextSet,
    last_focused_window: Option<u64>,
    show_workspace_name: bool,
    context_menu_id: Option<u64>,
    next_popup_id: u64,
    pinned: Vec<String>,
    desktop_path_cache: TextMap,
    hovered_pinned: Option<String>,
    context_menu_target: Option<MenuTarget>,
    ignore_next_applet_right_click: bool,
    dragged_app: Option<(String, usize)>,
    has_drag_moved: bool,
    last_scroll_ms: u64,
}

impl View for AppModel {
    type V = ModelView;

    closed spec fn view(&self) -> ModelView {
        ModelView {
            output: self.output@,
            windows: self.raw_windows@,
            workspaces: self.raw_workspaces@,
            display: rows_of(self.display@),
            icons_cached: self.icons_cached@,
            icons_pending: self.icons_pending@,
            last_focused: self.last_focused_window,
            show_workspace_name: self.show_workspace_name,
            menu: self.context_menu_id,
            next_popup: self.next_popup_id,
            pinned: texts_view(self.pinned@),
            desktop_paths: self.desktop_path_cache@,
            hovered: opt_text(self.hovered_pinned),
            menu_target: self.context_menu_target,
            ignore_applet_click: self.ignore_next_applet_right_click,
            dragged: match self.dragged_app {
                Some((a, i)) => Some((a@, i)),
                None => None,
            },
            drag_moved: self.has_drag_moved,
            last_scroll: self.last_scroll_ms,
        }
    }
}

impl AppModel {
    /// The state is well formed.
    pub closed spec fn wf(&self) -> bool {
        &&& model_inv(self@)
        &&& self.icons_cached.wf()
        &&& self.icons_pending.wf()
        &&& self.desktop_path_cache.wf()
    }

    /// A fresh applet on output `output` with the pinned list read at startup.
    pub fn new(output: String, pinned: Vec<String>) -> (res: AppModel)
        ensures
            res.wf(),
            model_inv(res@),
            res@ == (ModelView {
                output: output@,
                windows: Map::empty(),
                workspaces: Map::empty(),
                display: Seq::empty(),
                icons_cached: Set::empty(),
                icons_pending: Set::empty(),
                last_focused: None,
                show_workspace_name: false,
                menu: None,
                next_popup: 0,
                pinned: texts_view(pinned@),
                desktop_paths: Map::empty(),
                hovered: None,
                menu_target: None,
                ignore_applet_click: false,
                dragged: None,
                drag_moved: false,
                last_scroll: 0,
            }),
    {
        let res = AppModel {
            output,
            raw_windows: HashMap::new(),
            raw_workspaces: HashMap::new(),
            display: Vec::new(),
            icons_cached: TextSet::new(),
            icons_pending: TextSet::new(),
            last_focused_window: None,
            show_workspace_name: false,
            context_menu_id: None,
            next_popup_id: 0,
            pinned,
            desktop_path_cache: TextMap::new(),
            hovered_pinned: None,
            context_menu_target: None,
            ignore_next_applet_right_click: false,
            dragged_app: None,
            has_drag_moved: false,
            last_scroll_ms: 0,
        };
        proof {
            assert(rows_of(res.display@) =~= Seq::<WorkspaceRow>::empty());
        }
        res
    }

    /// Rebuilds the panel content from the raw state.
    fn refresh(&mut self)
        requires
            keyed_windows(old(self)@.windows),
            keyed_workspaces(old(self)@.workspaces),
        ensures
            redisplayed(old(self)@, final(self)@),
            display_consistent(final(self)@.display, final(self)@.workspaces, final(self)@.windows, final(self)@.last_focused),
            final(self).icons_cached == old(self).icons_cached,
            final(self).icons_pending == old(self).icons_pending,
            final(self).desktop_path_cache == old(self).desktop_path_cache,
    {
        self.display = rebuild_display(&self.raw_workspaces, &self.raw_windows, self.last_focused_window);
    }

    /// Marks `c` as considered for an icon lookup: it is requested when it is
    /// neither known nor already requested.
    fn consider_icon(
        cached: &TextSet,
        pending: &mut TextSet,
        ids: &mut Vec<String>,
        c: String,
        Ghost(seen): Ghost<Set<Seq<char>>>,
        Ghost(p0): Ghost<Set<Seq<char>>>,
    )
        requires
            old(pending).wf(),
            texts_view(old(ids)@).no_duplicates(),
            texts_view(old(ids)@).to_set() == seen.difference(cached@).difference(p0),
            old(pending)@ == p0.union(texts_view(old(ids)@).to_set()),
        ensures
            final(pending).wf(),
            texts_view(final(ids)@).no_duplicates(),
            texts_view(final(ids)@).to_set() == seen.insert(c@).difference(cached@).difference(p0),
            final(pending)@ == p0.union(texts_view(final(ids)@).to_set()),
    {
        let ghost cv = c@;
        let ghost before = texts_view(ids@);
        if !cached.contains(c.as_str()) && !pending.contains(c.as_str()) {
            pending.insert(c.clone());
            ids.push(c);
            proof {
                let after = texts_view(ids@);
                assert(after =~= before.push(cv));
                before.lemma_push_to_set_commute(cv);
                assert(!before.to_set().contains(cv));
                assert forall|a: int, b: int| 0 <= a < after.len() && 0 <= b < after.len() && a != b implies after[a] != after[b] by {
                    if a == before.len() {
                        assert(before.to_set().contains(before[b]));
                    } else if b == before.len() {
                        assert(before.to_set().contains(before[a]));
                    } else {
                        assert(before[a] != before[b]);
                    }
                }
                assert(after.to_set() =~= seen.insert(cv).difference(cached@).difference(p0));
                assert(pending@ =~= p0.union(after.to_set()));
            }
        } else {
            proof {
                assert(before.to_set() =~= seen.insert(cv).difference(cached@).difference(p0));
            }
        }
    }

    /// Requests the icons the panel needs that are neither known nor requested yet.
    fn spawn_missing_icons(&mut self) -> (cs: Vec<Command>)
        requires
            old(self).wf(),
        ensures
            final(self).wf(),
            icons_spawned(old(self)@, final(self)@, commands_view(cs@)),
    {
        let ghost v0 = self@;
        let ghost p0 = self.icons_pending@;
        let mut ids: Vec<String> = Vec::new();
        let ghost mut seen: Set<Seq<char>> = Set::empty();
        proof {
            assert(texts_view(ids@) =~= Seq::<Seq<char>>::empty());
            assert(texts_view(ids@).to_set() =~= seen.difference(self.icons_cached@).difference(p0));
            assert(self.icons_pending@ =~= p0.union(texts_view(ids@).to_set()));
        }
        let keys = map_keys(&self.raw_windows);
        let mut i: usize = 0;
        while i < keys.len()
            invariant
                i <= keys.len(),
                self@ == (ModelView { icons_pending: self@.icons_pending, ..v0 }),
                self.icons_pending.wf(),
                self.icons_cached == old(self).icons_cached,
                self.desktop_path_cache == old(self).desktop_path_cache,
                forall|j: int| 0 <= j < keys.len() ==> v0.windows.contains_key(#[trigger] keys@[j]),
                seen == Set::new(|t: Seq<char>| exists|j: int| 0 <= j < i && #[trigger] icon_key(v0.windows[keys@[j]]) == t),
                texts_view(ids@).no_duplicates(),
                texts_view(ids@).to_set() == seen.difference(self.icons_cached@).difference(p0),
                self.icons_pending@ == p0.union(texts_view(ids@).to_set()),
            decreases keys.len() - i,
        {
            let k = keys[i];
            let key = match self.raw_windows.get(&k) {
                Some(w) => window_icon_key(w),
                None => owned("preferences-system-windows-symbolic"),
            };
            let ghost kv = key@;
            Self::consider_icon(&self.icons_cached, &mut self.icons_pending, &mut ids, key, Ghost(seen), Ghost(p0));
            proof {
                let next = Set::new(|t: Seq<char>| exists|j: int| 0 <= j < i + 1 && #[trigger] icon_key(v0.windows[keys@[j]]) == t);
                assert(kv == icon_key(v0.windows[keys@[i as int]]));
                assert(seen.insert(kv) =~= next);
                seen = next;
            }
            i += 1;
        }
        let mut j: usize = 0;
        let ghost wseen = seen;
        while j < self.pinned.len()
            invariant
                j <= self.pinned@.len(),
                self@ == (ModelView { icons_pending: self@.icons_pending, ..v0 }),
                self.icons_pending.wf(),
                self.icons_cached == old(self).icons_cached,
                self.desktop_path_cache == old(self).desktop_path_cache,
                seen == wseen.union(texts_view(self.pinned@).take(j as int).to_set()),
                texts_view(ids@).no_duplicates(),
                texts_view(ids@).to_set() == seen.difference(self.icons_cached@).difference(p0),
                self.icons_pending@ == p0.union(texts_view(ids@).to_set()),
            decreases self.pinned@.len() - j,
        {
            let c = self.pinned[j].clone();
            let ghost cv = c@;
            Self::consider_icon(&self.icons_cached, &mut self.icons_pending, &mut ids, c, Ghost(seen), Ghost(p0));
            proof {
                let pv = texts_view(self.pinned@);
                assert(pv.take(j as int + 1) =~= pv.take(j as int).push(cv));
                pv.take(j as int).lemma_push_to_set_commute(cv);
                seen = seen.insert(cv);
                assert(seen =~= wseen.union(pv.take(j as int + 1).to_set()));
            }
            j += 1;
        }
        proof {
            let pv = texts_view(self.pinned@);
            assert(pv.take(pv.len() as int) =~= pv);
            assert(seen =~= icons_needed(v0.windows, v0.pinned)) by {
                assert forall|t: Seq<char>| seen.contains(t) <==> icons_needed(v0.windows, v0.pinned).contains(t) by {
                    if exists|k: u64| #[trigger] v0.windows.contains_key(k) && icon_key(v0.windows[k]) == t {
                        let k = choose|k: u64| #[trigger] v0.windows.contains_key(k) && icon_key(v0.windows[k]) == t;
                        assert(keys@.contains(k));
                        let jj = choose|jj: int| 0 <= jj < keys.len() && keys@[jj] == k;
                        assert(icon_key(v0.windows[keys@[jj]]) == t);
                    }
                    if wseen.contains(t) {
                        let jj = choose|jj: int| 0 <= jj < keys.len() && #[trigger] icon_key(v0.windows[keys@[jj]]) == t;
                        assert(v0.windows.contains_key(keys@[jj]));
                    }
                }
            }
        }
        let mut cs: Vec<Command> = Vec::new();
        if ids.len() > 0 {
            let ghost idv = texts_view(ids@);
            cs.push(Command::ResolveIcons { app_ids: ids });
            proof {
                assert(commands_view(cs@) =~= seq![CommandView::ResolveIcons(idv)]);
                assert(idv.to_set().contains(idv[0]));
            }
        } else {
            proof {
                assert(commands_view(cs@) =~= Seq::<CommandView>::empty());
                let r = missing_icons(v0.icons_cached, v0.icons_pending, icons_needed(v0.windows, v0.pinned));
                assert(texts_view(ids@) =~= Seq::<Seq<char>>::empty());
                assert(r =~= texts_view(ids@).to_set());
                assert(r =~= Set::<Seq<char>>::empty());
            }
        }
        proof {
            let r = missing_icons(v0.icons_cached, v0.icons_pending, icons_needed(v0.windows, v0.pinned));
            assert(self@.icons_pending =~= v0.icons_pending.union(r));
        }
        cs
    }

    fn on_focus_window(&mut self, id: u64) -> (cs: Vec<Command>)
        requires
            old(self).wf(),
        ensures
            final(self).wf(),
            focus_window_post(old(self)@, final(self)@, id, commands_view(cs@)),
    {
        let mut cs: Vec<Command> = Vec::new();
        let same = match self.last_focused_window {
            Some(f) => f == id,
            None => false,
        };
        if same {
            cs.push(Command::Niri(NiriAction::CenterWindow { id }));
        } else {
            self.last_focused_window = Some(id);
            self.refresh();
            cs.push(Command::Niri(NiriAction::FocusWindow { id }));
        }
        proof {
            assert(commands_view(cs@) =~= seq![commands_view(cs@)[0]]);
        }
        cs
    }

    fn on_close_window(&mut self, id: u64) -> (cs: Vec<Command>)
        requires
            old(self).wf(),
        ensures
            final(self).wf(),
            final(self)@ == old(self)@,
            commands_view(cs@) == seq![CommandView::Niri(ActionView::CloseWindow(id))],
    {
        let mut cs: Vec<Command> = Vec::new();
        cs.push(Command::Niri(NiriAction::CloseWindow { id }));
        proof {
            assert(commands_view(cs@) =~= seq![CommandView::Niri(ActionView::CloseWindow(id))]);
        }
        cs
    }

    fn on_scroll(&mut self, down: bool, now: u64) -> (cs: Vec<Command>)
        requires
            old(self).wf(),
        ensures
            final(self).wf(),
            scroll_post(old(self)@, final(self)@, down, now, commands_view(cs@)),
    {
        let mut cs: Vec<Command> = Vec::new();
        let over = now >= self.last_scroll_ms && now - self.last_scroll_ms >= SCROLL_COOLDOWN_MS;
        if over {
            self.last_scroll_ms = now;
            if down {
                cs.push(Command::Niri(NiriAction::FocusWorkspaceDown));
            } else {
                cs.push(Command::Niri(NiriAction::FocusWorkspaceUp));
            }
        }
        proof {
            if over {
                assert(commands_view(cs@) =~= seq![commands_view(cs@)[0]]);
            } else {
                assert(commands_view(cs@) =~= Seq::<CommandView>::empty());
            }
        }
        cs
    }

    fn on_popup_closed(&mut self, p: u64) -> (cs: Vec<Command>)
        requires
            old(self).wf(),
        ensures
            final(self).wf(),
            popup_closed_post(old(self)@, final(self)@, p, commands_view(cs@)),
    {
        let same = match self.context_menu_id {
            Some(m) => m == p,
            None => false,
        };
        if same {
            self.context_menu_id = None;
        }
        let cs: Vec<Command> = Vec::new();
        proof {
            assert(commands_view(cs@) =~= Seq::<CommandView>::empty());
        }
        cs
    }

    /// Closes the context menu if it is open.
    fn close_menu(&mut self, clear_target: bool) -> (cs: Vec<Command>)
        requires
            old(self).wf(),
        ensures
            final(self).wf(),
            final(self)@ == (ModelView {
                menu: None,
                menu_target: if clear_target && old(self)@.menu is Some { None } else { old(self)@.menu_target },
                ..old(self)@
            }),
            commands_view(cs@) == match old(self)@.menu {
                Some(p) => seq![CommandView::DestroyPopup(p)],
                None => Seq::<CommandView>::empty(),
            },
    {
        let mut cs: Vec<Command> = Vec::new();
        match self.context_menu_id {
            Some(p) => {
                self.context_menu_id = None;
                if clear_target {
                    self.context_menu_target = None;
                }
                cs.push(Command::DestroyPopup { popup: p });
                proof {
                    assert(commands_view(cs@) =~= seq![CommandView::DestroyPopup(p)]);
                }
            },
            None => {
                proof {
                    assert(commands_view(cs@) =~= Seq::<CommandView>::empty());
                }
            },
        }
        cs
    }

    fn on_toggle_names(&mut self, val: bool) -> (cs: Vec<Command>)
        requires
            old(self).wf(),
        ensures
            final(self).wf(),
            toggle_names_post(old(self)@, final(self)@, val, commands_view(cs@)),
    {
        self.show_workspace_name = val;
        self.refresh();
        self.close_menu(false)
    }

    fn on_right_click(&mut self, target: MenuTarget) -> (cs: Vec<Command>)
        requires
            old(self).wf(),
        ensures
            final(self).wf(),
            right_click_post(old(self)@, final(self)@, target, commands_view(cs@)),
    {
        let is_applet = match &target {
            MenuTarget::Applet => true,
            _ => false,
        };
        if is_applet {
            if self.ignore_next_applet_right_click {
                self.ignore_next_applet_right_click = false;
                let cs: Vec<Command> = Vec::new();
                proof {
                    assert(commands_view(cs@) =~= Seq::<CommandView>::empty());
                }
                return cs;
            }
        } else {
            self.ignore_next_applet_right_click = true;
        }
        match self.context_menu_id {
            Some(_) => self.close_menu(true),
            None => {
                let popup = self.next_popup_id;
                self.next_popup_id = if popup == u64::MAX { 0 } else { popup + 1 };
                self.context_menu_id = Some(popup);
                self.context_menu_target = Some(target);
                let mut cs: Vec<Command> = Vec::new();
                cs.push(Command::OpenContextMenu { popup });
                proof {
                    assert(commands_view(cs@) =~= seq![CommandView::OpenContextMenu(popup)]);
                }
                cs
            },
        }
    }

    fn on_mouse_move(&mut self, past: bool) -> (cs: Vec<Command>)
        requires
            old(self).wf(),
        ensures
            final(self).wf(),
            mouse_move_post(old(self)@, final(self)@, past, commands_view(cs@)),
    {
        if self.dragged_app.is_some() && past {
            self.has_drag_moved = true;
        }
        let cs: Vec<Command> = Vec::new();
        proof {
            assert(commands_view(cs@) =~= Seq::<CommandView>::empty());
        }
        cs
    }

    fn on_drag_start(&mut self, a: String, i: usize) -> (cs: Vec<Command>)
        requires
            old(self).wf(),
        ensures
            final(self).wf(),
            drag_start_post(old(self)@, final(self)@, a@, i, commands_view(cs@)),
    {
        self.dragged_app = Some((a, i));
        self.has_drag_moved = false;
        let cs: Vec<Command> = Vec::new();
        proof {
            assert(commands_view(cs@) =~= Seq::<CommandView>::empty());
        }
        cs
    }

    fn on_hover(&mut self, o: Option<String>) -> (cs: Vec<Command>)
        requires
            old(self).wf(),
        ensures
            final(self).wf(),
            final(self)@ == (ModelView { hovered: opt_text(o), ..old(self)@ }),
            cs@.len() == 0,
    {
        self.hovered_pinned = o;
        Vec::new()
    }

    fn on_icon_resolved(&mut self, a: String) -> (cs: Vec<Command>)
        requires
            old(self).wf(),
        ensures
            final(self).wf(),
            redisplayed(
                ModelView {
                    icons_pending: old(self)@.icons_pending.remove(a@),
                    icons_cached: old(self)@.icons_cached.insert(a@),
                    ..old(self)@
                },
                final(self)@,
            ),
            cs@.len() == 0,
    {
        self.icons_pending.remove(a.as_str());
        self.icons_cached.insert(a);
        self.refresh();
        Vec::new()
    }

    fn launch(&mut self, a: String) -> (cs: Vec<Command>)
        requires
            old(self).wf(),
        ensures
            final(self).wf(),
            launch_post(old(self)@, final(self)@, a@, commands_view(cs@)),
    {
        let mut cs: Vec<Command> = Vec::new();
        match self.desktop_path_cache.get(a.as_str()) {
            Some(path) => {
                let ghost pv = path@;
                let mut command: Vec<String> = Vec::new();
                command.push(owned("gio"));
                command.push(owned("launch"));
                command.push(path);
                proof {
                    assert(texts_view(command@) =~= gio_launch(pv));
                }
                cs.push(Command::Niri(NiriAction::Spawn { command }));
                proof {
                    assert(commands_view(cs@) =~= seq![CommandView::Niri(ActionView::Spawn(gio_launch(pv)))]);
                }
            },
            None => {
                let ghost av = a@;
                cs.push(Command::LookupDesktopPath { app_id: a, launch: true });
                proof {
                    assert(commands_view(cs@) =~= seq![CommandView::LookupDesktopPath(av, true)]);
                }
            },
        }
        cs
    }

    fn on_desktop_path(&mut self, a: String, path: Option<String>, launch: bool) -> (cs: Vec<Command>)
        requires
            old(self).wf(),
        ensures
            final(self).wf(),
            desktop_path_post(old(self)@, final(self)@, a@, opt_text(path), launch, commands_view(cs@)),
    {
        let mut cs: Vec<Command> = Vec::new();
        let ghost av = a@;
        match path {
            Some(p) => {
                let ghost pv = p@;
                if launch {
                    let mut command: Vec<String> = Vec::new();
                    command.push(owned("gio"));
                    command.push(owned("launch"));
                    command.push(p.clone());
                    proof {
                        assert(texts_view(command@) =~= gio_launch(pv));
                    }
                    cs.push(Command::Niri(NiriAction::Spawn { command }));
                    proof {
                        assert(commands_view(cs@) =~= seq![CommandView::Niri(ActionView::Spawn(gio_launch(pv)))]);
                    }
                } else {
                    proof {
                        assert(commands_view(cs@) =~= Seq::<CommandView>::empty());
                    }
                }
                self.desktop_path_cache.insert(a, p);
            },
            None => {
                if launch {
                    let mut command: Vec<String> = Vec::new();
                    command.push(a);
                    proof {
                        assert(texts_view(command@) =~= seq![av]);
                    }
                    cs.push(Command::Niri(NiriAction::Spawn { command }));
                    proof {
                        assert(commands_view(cs@) =~= seq![CommandView::Niri(ActionView::Spawn(seq![av]))]);
                    }
                } else {
                    proof {
                        assert(commands_view(cs@) =~= Seq::<CommandView>::empty());
                    }
                }
            },
        }
        cs
    }

    /// A copy of the pinned list.
    fn pinned_copy(&self) -> (res: Vec<String>)
        ensures
            res@ == self.pinned@,
    {
        let mut res: Vec<String> = Vec::new();
        let mut i: usize = 0;
        while i < self.pinned.len()
            invariant
                i <= self.pinned@.len(),
                res@ == self.pinned@.take(i as int),
            decreases self.pinned@.len() - i,
        {
            res.push(self.pinned[i].clone());
            proof {
                assert(self.pinned@.take(i as int + 1) =~= res@);
            }
            i += 1;
        }
        proof {
            assert(self.pinned@.take(self.pinned@.len() as int) =~= self.pinned@);
        }
        res
    }

    fn on_pin(&mut self, a: String) -> (cs: Vec<Command>)
        requires
            old(self).wf(),
        ensures
            final(self).wf(),
            pin_post(old(self)@, final(self)@, a@, commands_view(cs@)),
    {
        let ghost pre = self@;
        let ghost av = a@;
        let mut cs: Vec<Command> = Vec::new();
        if find_pinned(&self.pinned, a.as_str()).is_some() {
            proof {
                assert(commands_view(cs@) =~= Seq::<CommandView>::empty());
            }
            return cs;
        }
        pin(&mut self.pinned, a.clone());
        cs.push(Command::SavePinned(self.pinned_copy()));
        self.refresh();
        cs.push(Command::LookupDesktopPath { app_id: a, launch: false });
        let ghost mid = self@;
        let mut icons = self.spawn_missing_icons();
        let ghost iv = commands_view(icons@);
        let ghost mid2 = self@;
        let mut closing = self.close_menu(true);
        let ghost clv = commands_view(closing@);
        let ghost head = cs@;
        cs.append(&mut icons);
        cs.append(&mut closing);
        proof {
            let pinned = pin_spec(pre.pinned, av);
            let r = missing_icons(pre.icons_cached, pre.icons_pending, icons_needed(pre.windows, pinned));
            assert(mid.icons_cached == pre.icons_cached && mid.icons_pending == pre.icons_pending);
            assert(mid.windows == pre.windows && mid.pinned == pinned);
            let hv = commands_view(head);
            assert(hv =~= seq![CommandView::SavePinned(pinned), CommandView::LookupDesktopPath(av, false)]);
            let all = commands_view(cs@);
            assert(all =~= hv + iv + clv);
            assert(iv.len() == icon_count(r));
            let n = 2 + icon_count(r);
            assert(all.subrange(0, 2) =~= hv);
            assert(all.subrange(2, n) =~= iv);
            assert(all.subrange(n, all.len() as int) =~= clv);
        }
        cs
    }

    fn on_unpin(&mut self, a: String) -> (cs: Vec<Command>)
        requires
            old(self).wf(),
        ensures
            final(self).wf(),
            unpin_post(old(self)@, final(self)@, a@, commands_view(cs@)),
    {
        let mut cs: Vec<Command> = Vec::new();
        if unpin(&mut self.pinned, a.as_str()) {
            cs.push(Command::SavePinned(self.pinned_copy()));
            self.refresh();
            let ghost head = commands_view(cs@);
            let mut closing = self.close_menu(true);
            let ghost clv = commands_view(closing@);
            cs.append(&mut closing);
            proof {
                let all = commands_view(cs@);
                assert(all =~= head + clv);
                assert(all.subrange(1, all.len() as int) =~= clv);
            }
        } else {
            proof {
                assert(commands_view(cs@) =~= Seq::<CommandView>::empty());
            }
        }
        cs
    }

    fn on_drag_over(&mut self, index: usize) -> (cs: Vec<Command>)
        requires
            old(self).wf(),
            drag_over_defined(old(self)@, index),
        ensures
            final(self).wf(),
            drag_over_post(old(self)@, final(self)@, index, commands_view(cs@)),
    {
        match &self.dragged_app {
            Some((a, from)) => {
                let from = *from;
                if from != index && index < self.pinned.len() {
                    let a1 = a.clone();
                    let a2 = a.clone();
                    let a3 = a.clone();
                    move_pinned(&mut self.pinned, from, index, a1);
                    self.dragged_app = Some((a2, index));
                    self.hovered_pinned = Some(a3);
                    self.refresh();
                }
            },
            None => {
                if index < self.pinned.len() {
                    self.hovered_pinned = Some(self.pinned[index].clone());
                    self.refresh();
                }
            },
        }
        let cs: Vec<Command> = Vec::new();
        proof {
            assert(commands_view(cs@) =~= Seq::<CommandView>::empty());
        }
        cs
    }

    fn on_drag_end(&mut self) -> (cs: Vec<Command>)
        requires
            old(self).wf(),
        ensures
            final(self).wf(),
            drag_end_post(old(self)@, final(self)@, commands_view(cs@)),
    {
        match self.dragged_app.take() {
            Some((a, _)) => {
                if !self.has_drag_moved {
                    self.has_drag_moved = false;
                    self.launch(a)
                } else {
                    self.has_drag_moved = false;
                    let mut cs: Vec<Command> = Vec::new();
                    cs.push(Command::SavePinned(self.pinned_copy()));
                    proof {
                        assert(commands_view(cs@) =~= seq![CommandView::SavePinned(texts_view(self.pinned@))]);
                    }
                    cs
                }
            },
            None => {
                self.has_drag_moved = false;
                let cs: Vec<Command> = Vec::new();
                proof {
                    assert(commands_view(cs@) =~= Seq::<CommandView>::empty());
                }
                cs
            },
        }
    }

    /// Drops window `id` and moves the mark away from it if needed.
    fn remove_window(&mut self, id: u64) -> (cs: Vec<Command>)
        requires
            old(self).wf(),
        ensures
            final(self).wf(),
            removed_post(old(self)@, final(self)@, id),
            cs@.len() == 0,
    {
        let ghost pre = self@;
        let removed = self.raw_windows.remove(&id);
        proof {
            assert(self.raw_windows@ =~= pre.windows.remove(id));
            assert(removed is Some <==> pre.windows.contains_key(id));
        }
        if removed.is_some() {
            let was_marked = match self.last_focused_window {
                Some(f) => f == id,
                None => false,
            };
            if was_marked {
                self.last_focused_window = None;
                match pick_focus(&self.raw_windows, true) {
                    Some(k) => {
                        self.last_focused_window = Some(k);
                    },
                    None => {},
                }
            }
            self.refresh();
        } else {
            proof {
                assert(self.raw_windows@ =~= pre.windows);
            }
        }
        Vec::new()
    }

    fn on_workspaces_changed(&mut self, list: Vec<WorkspaceInfo>) -> (cs: Vec<Command>)
        requires
            old(self).wf(),
        ensures
            final(self).wf(),
            workspaces_changed_post(old(self)@, final(self)@, list@, commands_view(cs@)),
    {
        let ghost pre = self@;
        let ghost l = list@;
        self.raw_workspaces = map_workspaces(list, self.output.as_str());
        retain_windows(&mut self.raw_windows, &self.raw_workspaces);
        self.refresh();
        proof {
            lemma_workspaces_from(l, pre.output);
        }
        let cs: Vec<Command> = Vec::new();
        proof {
            assert(commands_view(cs@) =~= Seq::<CommandView>::empty());
        }
        cs
    }

    fn on_workspace_activated(&mut self, id: u64, focused: bool) -> (cs: Vec<Command>)
        requires
            old(self).wf(),
        ensures
            final(self).wf(),
            workspace_activated_post(old(self)@, final(self)@, id, focused, commands_view(cs@)),
    {
        let ghost pre = self@;
        if self.raw_workspaces.contains_key(&id) {
            activate_workspace(&mut self.raw_workspaces, id, focused);
            self.refresh();
            proof {
                assert(self@.workspaces.dom() =~= pre.workspaces.dom());
            }
        }
        let cs: Vec<Command> = Vec::new();
        proof {
            assert(commands_view(cs@) =~= Seq::<CommandView>::empty());
        }
        cs
    }

    fn on_windows_changed(&mut self, list: Vec<WindowInfo>) -> (cs: Vec<Command>)
        requires
            old(self).wf(),
        ensures
            final(self).wf(),
            windows_changed_post(old(self)@, final(self)@, list@, commands_view(cs@)),
    {
        let ghost pre = self@;
        let ghost l = list@;
        self.raw_windows = map_windows(list, &self.raw_workspaces);
        proof {
            lemma_windows_from(l, pre.workspaces);
        }
        match pick_focus(&self.raw_windows, false) {
            Some(k) => {
                self.last_focused_window = Some(k);
            },
            None => {},
        }
        self.refresh();
        self.spawn_missing_icons()
    }

    fn on_window_opened(&mut self, window: WindowInfo) -> (cs: Vec<Command>)
        requires
            old(self).wf(),
        ensures
            final(self).wf(),
            window_opened_post(old(self)@, final(self)@, window, commands_view(cs@)),
    {
        let ghost pre = self@;
        let ghost wv = window;
        let id = window.id;
        let focused = window.is_focused;
        if window_belongs(&window, &self.raw_workspaces) {
            self.raw_windows.insert(id, window);
            if focused {
                self.last_focused_window = Some(id);
            }
            self.refresh();
            self.spawn_missing_icons()
        } else {
            let cs = self.remove_window(id);
            proof {
                assert(commands_view(cs@) =~= Seq::<CommandView>::empty());
            }
            cs
        }
    }

    fn on_window_focus(&mut self, id: Option<u64>) -> (cs: Vec<Command>)
        requires
            old(self).wf(),
        ensures
            final(self).wf(),
            window_focus_post(old(self)@, final(self)@, id, commands_view(cs@)),
    {
        match id {
            Some(f) => {
                if self.raw_windows.contains_key(&f) {
                    self.last_focused_window = Some(f);
                    self.refresh();
                }
            },
            None => {},
        }
        let cs: Vec<Command> = Vec::new();
        proof {
            assert(commands_view(cs@) =~= Seq::<CommandView>::empty());
        }
        cs
    }

    fn on_urgency(&mut self, id: u64, urgent: bool) -> (cs: Vec<Command>)
        requires
            old(self).wf(),
        ensures
            final(self).wf(),
            urgency_post(old(self)@, final(self)@, id, urgent, commands_view(cs@)),
    {
        let ghost pre = self@;
        match self.raw_windows.remove(&id) {
            Some(mut w) => {
                w.is_urgent = urgent;
                self.raw_windows.insert(id, w);
                proof {
                    assert(self.raw_windows@ =~= pre.windows.insert(id, WindowInfo { is_urgent: urgent, ..pre.windows[id] }));
                }
                self.refresh();
            },
            None => {
                proof {
                    assert(self.raw_windows@ =~= pre.windows);
                }
            },
        }
        let cs: Vec<Command> = Vec::new();
        proof {
            assert(commands_view(cs@) =~= Seq::<CommandView>::empty());
        }
        cs
    }

    fn on_layouts(&mut self, changes: Vec<(u64, Option<(usize, usize)>)>) -> (cs: Vec<Command>)
        requires
            old(self).wf(),
        ensures
            final(self).wf(),
            layouts_post(old(self)@, final(self)@, changes@, commands_view(cs@)),
    {
        let ghost pre = self@;
        let ghost l = changes@;
        let changed = apply_layout_changes(&mut self.raw_windows, changes);
        proof {
            lemma_apply_layouts(pre.windows, l, pre.workspaces);
        }
        if changed {
            self.refresh();
        }
        let cs: Vec<Command> = Vec::new();
        proof {
            assert(commands_view(cs@) =~= Seq::<CommandView>::empty());
        }
        cs
    }

    /// Desktop file lookups for the pinned applications whose desktop file is not
    /// known yet.
    fn desktop_lookups(&self) -> (cs: Vec<Command>)
        requires
            self.wf(),
        ensures
            commands_view(cs@) == pinned_lookups(self@.pinned, self@.desktop_paths),
    {
        let ghost pv = texts_view(self.pinned@);
        let ghost paths = self.desktop_path_cache@;
        let ghost pred = |p: Seq<char>| !paths.contains_key(p);
        let ghost f = |p: Seq<char>| CommandView::LookupDesktopPath(p, false);
        let mut cs: Vec<Command> = Vec::new();
        let mut i: usize = 0;
        proof {
            assert(pv.take(0) =~= Seq::<Seq<char>>::empty());
            assert(pv.take(0).filter(pred) =~= Seq::<Seq<char>>::empty()) by {
                reveal(Seq::filter);
            }
            assert(commands_view(cs@) =~= pv.take(0).filter(pred).map_values(f));
        }
        while i < self.pinned.len()
            invariant
                i <= self.pinned@.len(),
                self.wf(),
                pv == texts_view(self.pinned@),
                paths == self.desktop_path_cache@,
                pred == (|p: Seq<char>| !paths.contains_key(p)),
                f == (|p: Seq<char>| CommandView::LookupDesktopPath(p, false)),
                commands_view(cs@) == pv.take(i as int).filter(pred).map_values(f),
            decreases self.pinned@.len() - i,
        {
            let ghost before = commands_view(cs@);
            let p = &self.pinned[i];
            let ghost e = p@;
            proof {
                assert(pv.take(i as int + 1) =~= pv.take(i as int).push(e));
                pv.take(i as int).lemma_filter_push(e, pred);
            }
            if !self.desktop_path_cache.contains_key(p.as_str()) {
                cs.push(Command::LookupDesktopPath { app_id: p.clone(), launch: false });
                proof {
                    pv.take(i as int).filter(pred).lemma_push_map_commute(f, e);
                    assert(commands_view(cs@) =~= before.push(f(e)));
                }
            }
            i += 1;
        }
        proof {
            assert(pv.take(pv.len() as int) =~= pv);
        }
        cs
    }

    fn on_initial_data(&mut self, wins: Vec<WindowInfo>, wksps: Vec<WorkspaceInfo>) -> (cs: Vec<Command>)
        requires
            old(self).wf(),
        ensures
            final(self).wf(),
            initial_data_post(old(self)@, final(self)@, wins@, wksps@, commands_view(cs@)),
    {
        let ghost pre = self@;
        let ghost wl = wins@;
        let ghost sl = wksps@;
        self.raw_workspaces = map_workspaces(wksps, self.output.as_str());
        proof {
            lemma_workspaces_from(sl, pre.output);
        }
        self.raw_windows = map_windows(wins, &self.raw_workspaces);
        proof {
            lemma_windows_from(wl, self@.workspaces);
        }
        match pick_focus(&self.raw_windows, true) {
            Some(k) => {
                self.last_focused_window = Some(k);
            },
            None => {},
        }
        self.refresh();
        let mut cs = self.desktop_lookups();
        let ghost lv = commands_view(cs@);
        let mut icons = self.spawn_missing_icons();
        let ghost iv = commands_view(icons@);
        cs.append(&mut icons);
        proof {
            let all = commands_view(cs@);
            assert(all =~= lv + iv);
            assert(all.subrange(0, lv.len() as int) =~= lv);
            assert(all.subrange(lv.len() as int, all.len() as int) =~= iv);
        }
        cs
    }

    /// Handles one message: the next state and the commands to carry out.
    pub fn update(&mut self, msg: Message) -> (cs: Vec<Command>)
        requires
            old(self).wf(),
            update_allowed(old(self)@, msg),
        ensures
            final(self).wf(),
            model_inv(final(self)@),
            update_post(old(self)@, final(self)@, msg, commands_view(cs@)),
    {
        match msg {
            Message::PopupClosed(p) => self.on_popup_closed(p),
            Message::NiriEvent(e) => match e {
                NiriEvent::WorkspacesChanged { workspaces } => self.on_workspaces_changed(workspaces),
                NiriEvent::WorkspaceActivated { id, focused } => self.on_workspace_activated(id, focused),
                NiriEvent::WindowsChanged { windows } => self.on_windows_changed(windows),
                NiriEvent::WindowOpenedOrChanged { window } => self.on_window_opened(window),
                NiriEvent::WindowClosed { id } => self.remove_window(id),
                NiriEvent::WindowFocusChanged { id } => self.on_window_focus(id),
                NiriEvent::WindowUrgencyChanged { id, urgent } => self.on_urgency(id, urgent),
                NiriEvent::WindowLayoutsChanged { changes } => self.on_layouts(changes),
                NiriEvent::Other => Vec::new(),
            },
            Message::InitialData { wins, wksps } => self.on_initial_data(wins, wksps),
            Message::IconResolved { app_id } => self.on_icon_resolved(app_id),
            Message::FocusWindow(id) => self.on_focus_window(id),
            Message::CloseWindow(id) => self.on_close_window(id),
            Message::WorkspaceScrollDown { now_ms } => self.on_scroll(true, now_ms),
            Message::WorkspaceScrollUp { now_ms } => self.on_scroll(false, now_ms),
            Message::ToggleShowWorkspaceName(val) => self.on_toggle_names(val),
            Message::RightClick(target) => self.on_right_click(target),
            Message::MouseMove { past_drag_threshold } => self.on_mouse_move(past_drag_threshold),
            Message::PinApp(a) => self.on_pin(a),
            Message::UnpinApp(a) => self.on_unpin(a),
            Message::LaunchApp(a) => self.launch(a),
            Message::HoverPinned(o) => self.on_hover(o),
            Message::DragStart { app_id, index } => self.on_drag_start(app_id, index),
            Message::DragOver { index } => self.on_drag_over(index),
            Message::DragEnd => self.on_drag_end(),
            Message::DesktopPathFound { app_id, path, launch } => self.on_desktop_path(app_id, path, launch),
        }
    }

    /// Whether dragging onto pinned slot `index` is defined in the current state.
    pub fn drag_over_is_defined(&self, index: usize) -> (res: bool)
        ensures
            res == drag_over_defined(self@, index),
    {
        match &self.dragged_app {
            Some((_, from)) => !(*from != index && index < self.pinned.len()) || *from < self.pinned.len(),
            None => true,
        }
    }

    /// The panel content.
    pub fn display(&self) -> (res: &Vec<WorkspaceView>)
        ensures
            rows_of(res@) == self@.display,
    {
        &self.display
    }

    /// The pinned applications, in order.
    pub fn pinned(&self) -> (res: &Vec<String>)
        ensures
            texts_view(res@) == self@.pinned,
    {
        &self.pinned
    }

    /// Whether workspace names are shown.
    pub fn show_workspace_name(&self) -> (res: bool)
        ensures
            res == self@.show_workspace_name,
    {
        self.show_workspace_name
    }

    /// The highlighted pinned application.
    pub fn hovered_pinned(&self) -> (res: Option<String>)
        ensures
            opt_text(res) == self@.hovered,
    {
        clone_opt_text(&self.hovered_pinned)
    }

    /// What the context menu was opened for.
    pub fn context_menu_target(&self) -> (res: &Option<MenuTarget>)
        ensures
            *res == self@.menu_target,
    {
        &self.context_menu_target
    }

    /// The known desktop file of an application.
    pub fn desktop_path(&self, app_id: &str) -> (res: Option<String>)
        requires
            self.wf(),
        ensures
            match res {
                Some(p) => self@.desktop_paths.contains_key(app_id@) && self@.desktop_paths[app_id@] == p@,
                None => !self@.desktop_paths.contains_key(app_id@),
            },
    {
        self.desktop_path_cache.get(app_id)
    }

    /// Whether the application is pinned.
    pub fn is_pinned(&self, app_id: &str) -> (res: bool)
        ensures
            res == self@.pinned.contains(app_id@),
    {
        find_pinned(&self.pinned, app_id).is_some()
    }

    /// Whether some known window belongs to the application.
    pub fn is_app_open(&self, app_id: &str) -> (res: bool)
        ensures
            res == app_is_open(self@.windows, app_id@),
    {
        let keys = map_keys(&self.raw_windows);
        let mut i: usize = 0;
        while i < keys.len()
            invariant
                i <= keys.len(),
                forall|j: int| 0 <= j < keys.len() ==> self.raw_windows@.contains_key(#[trigger] keys@[j]),
                forall|k: u64| #[trigger] self.raw_windows@.contains_key(k) ==> keys@.contains(k),
                forall|j: int| 0 <= j < i ==> opt_text(self.raw_windows@[#[trigger] keys@[j]].app_id) != Some(app_id@),
            decreases keys.len() - i,
        {
            let k = keys[i];
            match self.raw_windows.get(&k) {
                Some(w) => {
                    let same = match &w.app_id {
                        Some(a) => text_eq(a.as_str(), app_id),
                        None => false,
                    };
                    if same {
                        return true;
                    }
                },
                None => {},
            }
            i += 1;
        }
        proof {
            assert forall|k: u64| #[trigger] self.raw_windows@.contains_key(k) implies opt_text(self.raw_windows@[k].app_id)
                != Some(app_id@) by {
                let j = choose|j: int| 0 <= j < keys.len() && keys@[j] == k;
            }
        }
        false
    }
}

} // verus!
