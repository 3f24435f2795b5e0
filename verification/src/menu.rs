//! The entries of the context menu, which depend on what was right-clicked.
use crate::model::MenuTarget;
use crate::state::{AppModel, ModelView};
use vstd::prelude::*;

verus! {

/// One entry of the context menu.
#[derive(Clone, Debug)]
pub enum MenuEntry {
    /// "Close Window" for the window with this id.
    CloseWindow(u64),
    /// The "Pin Application" switch: `pinned` is its state; switching it unpins a
    /// pinned application and pins any other.
    PinToggle { app_id: String, pinned: bool },
    Divider,
    /// The "Show workspace names" switch with its state.
    ShowNamesToggle(bool),
}

/// The abstract content of a `MenuEntry`.
pub enum EntryView {
    CloseWindow(u64),
    PinToggle(Seq<char>, bool),
    Divider,
    ShowNamesToggle(bool),
}

impl View for MenuEntry {
    type V = EntryView;

    open spec fn view(&self) -> EntryView {
        match self {
            MenuEntry::CloseWindow(id) => EntryView::CloseWindow(*id),
            MenuEntry::PinToggle { app_id, pinned } => EntryView::PinToggle(app_id@, *pinned),
            MenuEntry::Divider => EntryView::Divider,
            MenuEntry::ShowNamesToggle(b) => EntryView::ShowNamesToggle(*b),
        }
    }
}

/// The menu for a state: for a window, a close entry and (when it has an application
/// id) a pin switch; for a pinned icon, a pin switch that is on; a divider after
/// either; and always the workspace-name switch last.
pub open spec fn menu_spec(v: ModelView) -> Seq<EntryView> {
    let head = match v.menu_target {
        Some(MenuTarget::Window { id, app_id }) => match app_id {
            Some(a) => seq![
                EntryView::CloseWindow(id),
                EntryView::PinToggle(a@, v.pinned.contains(a@)),
                EntryView::Divider,
            ],
            None => seq![EntryView::CloseWindow(id), EntryView::Divider],
        },
        Some(MenuTarget::Pinned { app_id }) => seq![EntryView::PinToggle(app_id@, true), EntryView::Divider],
        _ => Seq::empty(),
    };
    head.push(EntryView::ShowNamesToggle(v.show_workspace_name))
}

/// The context menu entries for the model's state.
pub fn menu_entries(model: &AppModel) -> (res: Vec<MenuEntry>)
    ensures
        res@.map_values(|e: MenuEntry| e@) == menu_spec(model@),
{
    let mut res: Vec<MenuEntry> = Vec::new();
    match model.context_menu_target() {
        Some(MenuTarget::Window { id, app_id }) => {
            res.push(MenuEntry::CloseWindow(*id));
            match app_id {
                Some(a) => {
                    let pinned = model.is_pinned(a.as_str());
                    res.push(MenuEntry::PinToggle { app_id: a.clone(), pinned });
                },
                None => {},
            }
            res.push(MenuEntry::Divider);
        },
        Some(MenuTarget::Pinned { app_id }) => {
            res.push(MenuEntry::PinToggle { app_id: app_id.clone(), pinned: true });
            res.push(MenuEntry::Divider);
        },
        _ => {},
    }
    res.push(MenuEntry::ShowNamesToggle(model.show_workspace_name()));
    proof {
        assert(res@.map_values(|e: MenuEntry| e@) =~= menu_spec(model@));
    }
    res
}

} // verus!
