//! Plain-value records of the compositor state that the applet reads, and the
//! rows the panel shows.
use vstd::prelude::*;

verus! {

/// The application id of the applet itself; its own windows are never listed.
pub open spec fn own_app_id() -> Seq<char> {
    "com.github.ton.CosmicExtNiriWindows"@
}

/// The icon name used for windows that report no application id.
pub open spec fn fallback_icon() -> Seq<char> {
    "preferences-system-windows-symbolic"@
}

/// The title shown for windows that report none.
pub open spec fn untitled() -> Seq<char> {
    "Window"@
}

/// The characters of an optional text.
pub open spec fn opt_text(o: Option<String>) -> Option<Seq<char>> {
    match o {
        Some(s) => Some(s@),
        None => None,
    }
}

/// A window as the compositor reports it, reduced to what the applet reads.
#[derive(Clone, Debug)]
pub struct WindowInfo {
    pub id: u64,
    pub title: Option<String>,
    pub app_id: Option<String>,
    pub workspace_id: Option<u64>,
    pub is_focused: bool,
    pub is_urgent: bool,
    /// Column and tile index in the scrolling layout, if the window is tiled.
    pub pos_in_scrolling_layout: Option<(usize, usize)>,
}

/// A workspace as the compositor reports it, reduced to what the applet reads.
#[derive(Clone, Debug)]
pub struct WorkspaceInfo {
    pub id: u64,
    pub idx: u8,
    pub name: Option<String>,
    pub output: Option<String>,
    pub is_active: bool,
    pub is_focused: bool,
}

/// One window button of the panel.
#[derive(Clone, Debug)]
pub struct WindowView {
    pub id: u64,
    pub is_focused: bool,
    pub title: String,
    pub app_id: Option<String>,
}

/// One workspace group of the panel.
#[derive(Clone, Debug)]
pub struct WorkspaceView {
    pub id: u64,
    pub idx: u8,
    pub name: Option<String>,
    pub windows: Vec<WindowView>,
}

/// The abstract content of a `WindowView`.
pub struct WindowRow {
    pub id: u64,
    pub is_focused: bool,
    pub title: Seq<char>,
    pub app_id: Option<Seq<char>>,
}

/// The abstract content of a `WorkspaceView`.
pub struct WorkspaceRow {
    pub id: u64,
    pub idx: u8,
    pub name: Option<Seq<char>>,
    pub windows: Seq<WindowRow>,
}

impl View for WindowView {
    type V = WindowRow;

    open spec fn view(&self) -> WindowRow {
        WindowRow { id: self.id, is_focused: self.is_focused, title: self.title@, app_id: opt_text(self.app_id) }
    }
}

impl View for WorkspaceView {
    type V = WorkspaceRow;

    open spec fn view(&self) -> WorkspaceRow {
        WorkspaceRow {
            id: self.id,
            idx: self.idx,
            name: opt_text(self.name),
            windows: self.windows@.map_values(|w: WindowView| w@),
        }
    }
}

/// What a right click was made on.
#[allow(inconsistent_fields)]
#[derive(Clone, Debug, PartialEq)]
pub enum MenuTarget {
    Applet,
    Window { id: u64, app_id: Option<String> },
    Pinned { app_id: String },
}

/// Compositor events the applet reacts to.
#[allow(inconsistent_fields)]
#[derive(Clone, Debug)]
pub enum NiriEvent {
    WorkspacesChanged { workspaces: Vec<WorkspaceInfo> },
    WorkspaceActivated { id: u64, focused: bool },
    WindowsChanged { windows: Vec<WindowInfo> },
    WindowOpenedOrChanged { window: WindowInfo },
    WindowClosed { id: u64 },
    WindowFocusChanged { id: Option<u64> },
    WindowUrgencyChanged { id: u64, urgent: bool },
    /// New scrolling-layout positions, per window id.
    WindowLayoutsChanged { changes: Vec<(u64, Option<(usize, usize)>)> },
    /// Any event the applet ignores.
    Other,
}

/// Requests the applet sends to the compositor.
#[derive(Clone, Debug)]
pub enum NiriAction {
    CenterWindow { id: u64 },
    FocusWindow { id: u64 },
    CloseWindow { id: u64 },
    FocusWorkspaceDown,
    FocusWorkspaceUp,
    Spawn { command: Vec<String> },
}

/// Copy of an optional text.
pub fn clone_opt_text(o: &Option<String>) -> (res: Option<String>)
    ensures
        res == *o,
{
    match o {
        Some(s) => Some(s.clone()),
        None => None,
    }
}

impl WindowView {
    /// A field-by-field copy.
    pub fn copy(&self) -> (res: WindowView)
        ensures
            res == *self,
    {
        WindowView { id: self.id, is_focused: self.is_focused, title: self.title.clone(), app_id: clone_opt_text(&self.app_id) }
    }
}

impl MenuTarget {
    /// A field-by-field copy.
    pub fn copy(&self) -> (res: MenuTarget)
        ensures
            res == *self,
    {
        match self {
            MenuTarget::Applet => MenuTarget::Applet,
            MenuTarget::Window { id, app_id } => MenuTarget::Window { id: *id, app_id: clone_opt_text(app_id) },
            MenuTarget::Pinned { app_id } => MenuTarget::Pinned { app_id: app_id.clone() },
        }
    }
}

} // verus!
