//! Properties of the applet that span several messages or hold of every state.
use crate::display::{display_consistent, lemma_display_unique, shown_in};
use crate::pinned::{law_move_is_permutation, move_spec};
use crate::raw::{activate, apply_layouts, belongs, icons_needed, on_output, windows_from, workspaces_from};
use crate::model::WindowInfo;
use crate::icons::icon_dirs_spec;
use crate::desktop::join_spec;
use crate::menu::{menu_spec, EntryView};
use crate::panel::{panel_spec, pinned_items, workspace_items, any_windows, ItemView};
use crate::state::app_is_open;
use crate::state::{
    desktop_path_post, focus_window_post, icons_spawned, launch_post, missing_icons, model_inv, popup_closed_post,
    redisplayed, right_click_post, ActionView, CommandView, ModelView,
};
use crate::model::MenuTarget;
use vstd::prelude::*;

verus! {

/// In every state at most one window button carries the focus marker.
pub proof fn law_single_focus_marker(v: ModelView, i1: int, j1: int, i2: int, j2: int)
    requires
        model_inv(v),
        0 <= i1 < v.display.len(),
        0 <= i2 < v.display.len(),
        0 <= j1 < v.display[i1].windows.len(),
        0 <= j2 < v.display[i2].windows.len(),
        v.display[i1].windows[j1].is_focused,
        v.display[i2].windows[j2].is_focused,
    ensures
        i1 == i2 && j1 == j2,
{
    let d = v.display;
    let r1 = d[i1].windows[j1];
    let r2 = d[i2].windows[j2];
    assert(v.windows.contains_key(r1.id) && shown_in(v.windows[r1.id], d[i1].id));
    assert(v.windows.contains_key(r2.id) && shown_in(v.windows[r2.id], d[i2].id));
    assert(v.last_focused == Some(v.windows[r1.id].id));
    assert(v.last_focused == Some(v.windows[r2.id].id));
    assert(r1.id == r2.id);
    assert(d[i1].id == d[i2].id);
    if i1 != i2 {
        if i1 < i2 {
            assert(d[i1].id != d[i2].id);
        } else {
            assert(d[i2].id != d[i1].id);
        }
    }
    if j1 != j2 {
        if j1 < j2 {
            assert(d[i1].windows[j1].id != d[i1].windows[j2].id);
        } else {
            assert(d[i1].windows[j2].id != d[i1].windows[j1].id);
        }
    }
}

/// Clicking the same window twice: the first click focuses it, the second centers it
/// and changes nothing.
pub proof fn law_second_click_centers(
    s0: ModelView,
    s1: ModelView,
    s2: ModelView,
    id: u64,
    cs1: Seq<CommandView>,
    cs2: Seq<CommandView>,
)
    requires
        focus_window_post(s0, s1, id, cs1),
        focus_window_post(s1, s2, id, cs2),
    ensures
        s1.last_focused == Some(id),
        s2 == s1,
        cs2 == seq![CommandView::Niri(ActionView::CenterWindow(id))],
{
}

/// A right click on a window or pinned icon opens the menu; the same click, seen
/// again by the applet as a whole, is ignored and leaves the menu open.
pub proof fn law_echoed_applet_click_ignored(
    s0: ModelView,
    s1: ModelView,
    s2: ModelView,
    t: MenuTarget,
    cs1: Seq<CommandView>,
    cs2: Seq<CommandView>,
)
    requires
        !(t is Applet),
        s0.menu is None,
        right_click_post(s0, s1, t, cs1),
        right_click_post(s1, s2, MenuTarget::Applet, cs2),
    ensures
        s1.menu == Some(s0.next_popup),
        cs1 == seq![CommandView::OpenContextMenu(s0.next_popup)],
        s2.menu == s1.menu,
        cs2.len() == 0,
{
}

/// A right click while the menu is open closes it.
pub proof fn law_right_click_closes_open_menu(s0: ModelView, s1: ModelView, t: MenuTarget, cs: Seq<CommandView>)
    requires
        s0.menu is Some,
        !(t is Applet && s0.ignore_applet_click),
        right_click_post(s0, s1, t, cs),
    ensures
        s1.menu is None,
        cs == seq![CommandView::DestroyPopup(s0.menu->0)],
{
}

/// The shell closing the context menu that a right click opened leaves no menu open.
pub proof fn law_menu_closed_by_shell(
    s0: ModelView,
    s1: ModelView,
    s2: ModelView,
    t: MenuTarget,
    cs1: Seq<CommandView>,
    cs2: Seq<CommandView>,
)
    requires
        s0.menu is None,
        !(t is Applet && s0.ignore_applet_click),
        right_click_post(s0, s1, t, cs1),
        popup_closed_post(s1, s2, s0.next_popup, cs2),
    ensures
        s2.menu is None,
{
}

/// Once a desktop file is found, launching the application opens that file.
pub proof fn law_launch_uses_found_desktop_file(
    s0: ModelView,
    s1: ModelView,
    s2: ModelView,
    a: Seq<char>,
    p: Seq<char>,
    look: bool,
    cs1: Seq<CommandView>,
    cs2: Seq<CommandView>,
)
    requires
        desktop_path_post(s0, s1, a, Some(p), look, cs1),
        launch_post(s1, s2, a, cs2),
    ensures
        cs2 == seq![CommandView::Niri(ActionView::Spawn(seq!["gio"@, "launch"@, p]))],
{
}

/// After icons are requested, every icon the panel needs is known or on its way, and
/// nothing known or already on its way is requested again.
pub proof fn law_icons_covered(v: ModelView, post: ModelView, cs: Seq<CommandView>)
    requires
        icons_spawned(v, post, cs),
    ensures
        icons_needed(v.windows, v.pinned).subset_of(post.icons_cached.union(post.icons_pending)),
        missing_icons(v.icons_cached, v.icons_pending, icons_needed(v.windows, v.pinned)).disjoint(v.icons_cached),
        missing_icons(v.icons_cached, v.icons_pending, icons_needed(v.windows, v.pinned)).disjoint(v.icons_pending),
{
}

/// Asking for icons right after they were asked for asks for nothing and changes
/// nothing.
pub proof fn law_second_icon_request_empty(
    v: ModelView,
    post: ModelView,
    cs: Seq<CommandView>,
    post2: ModelView,
    cs2: Seq<CommandView>,
)
    requires
        icons_spawned(v, post, cs),
        icons_spawned(post, post2, cs2),
    ensures
        cs2.len() == 0,
        post2 == post,
{
    let r2 = missing_icons(post.icons_cached, post.icons_pending, icons_needed(post.windows, post.pinned));
    assert(r2 =~= Set::<Seq<char>>::empty());
    assert(post.icons_pending.union(r2) =~= post.icons_pending);
}

/// Rebuilding the panel rows in any state the applet reaches gives back the same
/// state: the rows are determined by the workspaces, the windows and the marked one.
pub proof fn law_rebuild_idempotent(v: ModelView, post: ModelView)
    requires
        model_inv(v),
        redisplayed(v, post),
        display_consistent(post.display, post.workspaces, post.windows, post.last_focused),
    ensures
        post == v,
{
    lemma_display_unique(post.display, v.display, v.workspaces, v.windows, v.last_focused);
}

/// Activating a known workspace leaves exactly that workspace active.
pub proof fn law_single_active_workspace(m: Map<u64, crate::model::WorkspaceInfo>, id: u64, focused: bool, k: u64)
    requires
        m.contains_key(id),
        activate(m, id, focused).contains_key(k),
    ensures
        activate(m, id, focused)[k].is_active <==> k == id,
        activate(m, id, focused).dom() == m.dom(),
{
    assert(activate(m, id, focused).dom() =~= m.dom());
}

/// Dragging a pinned icon rearranges the pinned applications without adding or
/// losing any, when the dragged entry is the one at the slot it was taken from.
pub proof fn law_drag_keeps_pinned_apps(p: Seq<Seq<char>>, from: int, to: int, a: Seq<char>)
    requires
        0 <= from < p.len(),
        0 <= to < p.len(),
        p[from] == a,
    ensures
        move_spec(p, from, to, a).to_multiset() == p.to_multiset(),
{
    law_move_is_permutation(p, from, to);
}

/// Per-output filtering: the workspaces kept from a reported list are exactly those on
/// the applet's output.
pub proof fn law_output_workspaces_kept(list: Seq<crate::model::WorkspaceInfo>, output: Seq<char>, k: u64)
    ensures
        workspaces_from(list, output).contains_key(k) <==> exists|i: int|
            0 <= i < list.len() && #[trigger] list[i].id == k && on_output(list[i], output),
    decreases list.len(),
{
    if list.len() > 0 {
        let init = list.drop_last();
        law_output_workspaces_kept(init, output, k);
        if exists|i: int| 0 <= i < init.len() && #[trigger] init[i].id == k && on_output(init[i], output) {
            let i = choose|i: int| 0 <= i < init.len() && #[trigger] init[i].id == k && on_output(init[i], output);
            assert(list[i] == init[i]);
        }
        if exists|i: int| 0 <= i < list.len() && #[trigger] list[i].id == k && on_output(list[i], output) {
            let i = choose|i: int| 0 <= i < list.len() && #[trigger] list[i].id == k && on_output(list[i], output);
            if i < list.len() - 1 {
                assert(init[i] == list[i]);
            }
        }
    }
}

/// Per-output filtering: the windows kept from a reported list are exactly those on
/// a tracked workspace.
pub proof fn law_windows_on_tracked_workspaces_kept(
    list: Seq<crate::model::WindowInfo>,
    wss: Map<u64, crate::model::WorkspaceInfo>,
    k: u64,
)
    ensures
        windows_from(list, wss).contains_key(k) <==> exists|i: int|
            0 <= i < list.len() && #[trigger] list[i].id == k && belongs(list[i], wss),
    decreases list.len(),
{
    if list.len() > 0 {
        let init = list.drop_last();
        law_windows_on_tracked_workspaces_kept(init, wss, k);
        if exists|i: int| 0 <= i < init.len() && #[trigger] init[i].id == k && belongs(init[i], wss) {
            let i = choose|i: int| 0 <= i < init.len() && #[trigger] init[i].id == k && belongs(init[i], wss);
            assert(list[i] == init[i]);
        }
        if exists|i: int| 0 <= i < list.len() && #[trigger] list[i].id == k && belongs(list[i], wss) {
            let i = choose|i: int| 0 <= i < list.len() && #[trigger] list[i].id == k && belongs(list[i], wss);
            if i < list.len() - 1 {
                assert(init[i] == list[i]);
            }
        }
    }
}

/// Layout changes keep the set of known windows and change nothing of a window but
/// its scrolling position; a window that no change names is untouched.
proof fn lemma_layouts_frame(m: Map<u64, WindowInfo>, changes: Seq<(u64, Option<(usize, usize)>)>)
    ensures
        apply_layouts(m, changes).dom() == m.dom(),
        forall|k: u64| #[trigger] m.contains_key(k) ==> apply_layouts(m, changes)[k] == (WindowInfo {
            pos_in_scrolling_layout: apply_layouts(m, changes)[k].pos_in_scrolling_layout,
            ..m[k]
        }),
        forall|k: u64|
            #[trigger] m.contains_key(k) && (forall|j: int| 0 <= j < changes.len() ==> (#[trigger] changes[j]).0 != k)
                ==> apply_layouts(m, changes)[k] == m[k],
    decreases changes.len(),
{
    if changes.len() > 0 {
        let prev = changes.drop_last();
        lemma_layouts_frame(m, prev);
        assert forall|k: u64|
            #[trigger] m.contains_key(k) && (forall|j: int| 0 <= j < changes.len() ==> (#[trigger] changes[j]).0 != k)
            implies apply_layouts(m, changes)[k] == m[k] by {
            assert forall|j: int| 0 <= j < prev.len() implies (#[trigger] prev[j]).0 != k by {
                assert(prev[j] == changes[j]);
            }
            assert(changes[changes.len() - 1].0 != k);
        }
        assert(apply_layouts(m, changes).dom() =~= m.dom());
    }
}

/// After layout changes, every known window stays known with all its other fields,
/// and its scrolling position is the one last reported for it (a reported `None`,
/// a floating window, included); windows no change names keep their position.
pub proof fn law_layout_last_report_wins(
    m: Map<u64, WindowInfo>,
    changes: Seq<(u64, Option<(usize, usize)>)>,
    k: int,
)
    requires
        0 <= k < changes.len(),
        m.contains_key(changes[k].0),
        forall|j: int| k < j < changes.len() ==> (#[trigger] changes[j]).0 != changes[k].0,
    ensures
        apply_layouts(m, changes).dom() == m.dom(),
        apply_layouts(m, changes)[changes[k].0] == (WindowInfo {
            pos_in_scrolling_layout: changes[k].1,
            ..m[changes[k].0]
        }),
    decreases changes.len(),
{
    let id = changes[k].0;
    let prev = changes.drop_last();
    lemma_layouts_frame(m, changes);
    lemma_layouts_frame(m, prev);
    if k < changes.len() - 1 {
        assert forall|j: int| k < j < prev.len() implies (#[trigger] prev[j]).0 != prev[k].0 by {
            assert(prev[j] == changes[j]);
        }
        law_layout_last_report_wins(m, prev, k);
        assert(changes.last().0 != id);
    }
}

/// Every pinned icon of the first `n` pinned applications names the entry it shows,
/// whose application has no open window; the icons come in list order.
proof fn lemma_pinned_items_sound(v: ModelView, n: int)
    requires
        0 <= n <= v.pinned.len(),
        v.pinned.len() <= usize::MAX,
    ensures
        forall|j: int|
            0 <= j < pinned_items(v, n).len() ==> (#[trigger] pinned_items(v, n)[j] matches ItemView::Pinned(i, a, h)
                && i < n && v.pinned[i as int] == a && !app_is_open(v.windows, a) && h == (v.hovered == Some(a))),
        forall|j1: int, j2: int|
            0 <= j1 < j2 < pinned_items(v, n).len() ==> (#[trigger] pinned_items(v, n)[j1])->Pinned_0
                < (#[trigger] pinned_items(v, n)[j2])->Pinned_0,
        forall|i: int|
            0 <= i < n && !app_is_open(v.windows, #[trigger] v.pinned[i]) ==> pinned_items(v, n).contains(
                ItemView::Pinned(i as usize, v.pinned[i], v.hovered == Some(v.pinned[i])),
            ),
    decreases n,
{
    if n > 0 {
        lemma_pinned_items_sound(v, n - 1);
        let prev = pinned_items(v, n - 1);
        let cur = pinned_items(v, n);
        assert forall|i: int|
            0 <= i < n && !app_is_open(v.windows, #[trigger] v.pinned[i]) implies cur.contains(
            ItemView::Pinned(i as usize, v.pinned[i], v.hovered == Some(v.pinned[i])),
        ) by {
            if i < n - 1 {
                let x = ItemView::Pinned(i as usize, v.pinned[i], v.hovered == Some(v.pinned[i]));
                assert(prev.contains(x));
                let j = choose|j: int| 0 <= j < prev.len() && prev[j] == x;
                assert(cur[j] == x);
            } else {
                assert(cur[cur.len() - 1] == ItemView::Pinned(i as usize, v.pinned[i], v.hovered == Some(v.pinned[i])));
            }
        }
        assert forall|j1: int, j2: int|
            0 <= j1 < j2 < cur.len() implies (#[trigger] cur[j1])->Pinned_0 < (#[trigger] cur[j2])->Pinned_0 by {
            if j2 < prev.len() {
                assert(cur[j1] == prev[j1] && cur[j2] == prev[j2]);
            } else {
                assert(cur[j1] == prev[j1]);
                assert(prev[j1] matches ItemView::Pinned(i, a, h) && i < n - 1);
            }
        }
        assert forall|j: int| 0 <= j < cur.len() implies (#[trigger] cur[j] matches ItemView::Pinned(i, a, h) && i < n
            && v.pinned[i as int] == a && !app_is_open(v.windows, a) && h == (v.hovered == Some(a))) by {
            if j < prev.len() {
                assert(cur[j] == prev[j]);
            }
        }
    }
}

/// The workspace part of the panel holds no pinned icon.
proof fn lemma_workspace_items_unpinned(d: Seq<crate::model::WorkspaceRow>, n: int, has_pinned: bool, show: bool)
    ensures
        forall|j: int| 0 <= j < workspace_items(d, n, has_pinned, show).len() ==> !(#[trigger] workspace_items(
            d,
            n,
            has_pinned,
            show,
        )[j] is Pinned),
    decreases n,
{
    if n > 0 {
        lemma_workspace_items_unpinned(d, n - 1, has_pinned, show);
    }
}

/// Each pinned icon on the panel names the pinned entry it shows, by its position in
/// the pinned list (the slot that hovering and dragging it report), and that
/// entry's application has no open window. Every pinned application without an
/// open window has its icon, and the icons keep the pinned list's order.
pub proof fn law_pinned_icons_name_their_slot(v: ModelView)
    requires
        v.pinned.len() <= usize::MAX,
    ensures
        forall|j: int|
            0 <= j < panel_spec(v).len() && (#[trigger] panel_spec(v)[j]) is Pinned ==> (panel_spec(v)[j] matches ItemView::Pinned(
                i,
                a,
                h,
            ) && i < v.pinned.len() && v.pinned[i as int] == a && !app_is_open(v.windows, a)),
        forall|j1: int, j2: int|
            0 <= j1 < j2 < panel_spec(v).len() && (#[trigger] panel_spec(v)[j1]) is Pinned
                && (#[trigger] panel_spec(v)[j2]) is Pinned ==> panel_spec(v)[j1]->Pinned_0 < panel_spec(v)[j2]->Pinned_0,
        forall|i: int|
            0 <= i < v.pinned.len() && !app_is_open(v.windows, #[trigger] v.pinned[i]) ==> panel_spec(v).contains(
                ItemView::Pinned(i as usize, v.pinned[i], v.hovered == Some(v.pinned[i])),
            ),
{
    let n = v.pinned.len() as int;
    let pins = pinned_items(v, n);
    let d = v.display;
    let ws = workspace_items(d, d.len() as int, pins.len() > 0, v.show_workspace_name);
    lemma_pinned_items_sound(v, n);
    lemma_workspace_items_unpinned(d, d.len() as int, pins.len() > 0, v.show_workspace_name);
    let p = panel_spec(v);
    if !any_windows(d, d.len() as int) && pins.len() == 0 {
        assert forall|i: int| 0 <= i < v.pinned.len() && !app_is_open(v.windows, #[trigger] v.pinned[i]) implies false by {
            assert(pins.contains(ItemView::Pinned(i as usize, v.pinned[i], v.hovered == Some(v.pinned[i]))));
        }
    } else {
        let end = if any_windows(d, d.len() as int) || pins.len() > 0 {
            seq![ItemView::EndDivider]
        } else {
            Seq::empty()
        };
        assert(p == seq![ItemView::StartDivider] + pins + ws + end);
        // positions 1 ..= pins.len() are the pinned icons; nothing else is one
        assert forall|j: int| 0 <= j < p.len() && (#[trigger] p[j]) is Pinned implies (1 <= j <= pins.len() && p[j]
            == pins[j - 1]) by {
            if j == 0 {
            } else if j <= pins.len() {
            } else if j <= pins.len() + ws.len() {
                assert(p[j] == ws[j - 1 - pins.len()]);
            } else {
                assert(p[j] == end[j - 1 - pins.len() - ws.len()]);
            }
        }
        assert forall|j: int|
            0 <= j < p.len() && (#[trigger] p[j]) is Pinned implies (p[j] matches ItemView::Pinned(i, a, h) && i
            < v.pinned.len() && v.pinned[i as int] == a && !app_is_open(v.windows, a)) by {
            assert(pins[j - 1] == p[j]);
        }
        assert forall|j1: int, j2: int|
            0 <= j1 < j2 < p.len() && (#[trigger] p[j1]) is Pinned && (#[trigger] p[j2]) is Pinned implies p[j1]->Pinned_0
            < p[j2]->Pinned_0 by {
            assert(pins[j1 - 1] == p[j1]);
            assert(pins[j2 - 1] == p[j2]);
        }
        assert forall|i: int| 0 <= i < v.pinned.len() && !app_is_open(v.windows, #[trigger] v.pinned[i]) implies p.contains(
            ItemView::Pinned(i as usize, v.pinned[i], v.hovered == Some(v.pinned[i])),
        ) by {
            let x = ItemView::Pinned(i as usize, v.pinned[i], v.hovered == Some(v.pinned[i]));
            assert(pins.contains(x));
            let j = choose|j: int| 0 <= j < pins.len() && pins[j] == x;
            assert(p[j + 1] == x);
        }
    }
}

/// The icon directories: when the data directory is known its `icons` comes first;
/// when the home directory is known its `.icons` is searched (recursively) whatever
/// the data directory is, right after the data directory's; then the system theme
/// and pixmap directories, the pixmap ones without recursion.
pub proof fn law_icon_dirs(data_dir: Option<Seq<char>>, home_dir: Option<Seq<char>>)
    ensures
        icon_dirs_spec(data_dir, home_dir).len() == 4 + (if data_dir is Some { 1int } else { 0int }) + (if home_dir is Some {
            1int
        } else {
            0int
        }),
        data_dir matches Some(d) ==> icon_dirs_spec(data_dir, home_dir)[0] == (join_spec(d, "icons"@), true),
        home_dir matches Some(h) ==> icon_dirs_spec(data_dir, home_dir).contains((join_spec(h, ".icons"@), true)),
        home_dir matches Some(h) ==> icon_dirs_spec(data_dir, home_dir)[if data_dir is Some { 1int } else { 0int }] == (
        join_spec(h, ".icons"@), true),
        ({
            let r = icon_dirs_spec(data_dir, home_dir);
            let n = r.len() as int;
            &&& r[n - 4] == ("/usr/share/icons"@, true)
            &&& r[n - 3] == ("/usr/share/pixmaps"@, false)
            &&& r[n - 2] == ("/usr/local/share/icons"@, true)
            &&& r[n - 1] == ("/usr/local/share/pixmaps"@, false)
        }),
{
    let r = icon_dirs_spec(data_dir, home_dir);
    match home_dir {
        Some(h) => {
            let k: int = if data_dir is Some { 1 } else { 0 };
            assert(r[k] == (join_spec(h, ".icons"@), true));
        },
        None => {},
    }
}

/// A drag moves only the dragged entry: it lands at the slot dragged to, the list
/// keeps its length, and the other entries keep their relative order.
pub proof fn law_move_only_dragged(p: Seq<Seq<char>>, from: int, to: int, a: Seq<char>)
    requires
        0 <= from < p.len(),
        0 <= to < p.len(),
    ensures
        move_spec(p, from, to, a).len() == p.len(),
        move_spec(p, from, to, a)[to] == a,
        move_spec(p, from, to, a).remove(to) == p.remove(from),
{
    let r = p.remove(from);
    assert(move_spec(p, from, to, a).remove(to) =~= r);
}

/// In a window's context menu the pin switch is about the window's application and
/// is on exactly when that application is pinned; a window with an application id
/// has one. In a pinned icon's menu the switch is on.
pub proof fn law_menu_pin_switch(v: ModelView)
    ensures
        v.menu_target matches Some(MenuTarget::Window { id, app_id }) ==> forall|j: int|
            0 <= j < menu_spec(v).len() ==> (#[trigger] menu_spec(v)[j] matches EntryView::PinToggle(a, b) ==> (
            app_id matches Some(s) && s@ == a && b == v.pinned.contains(a))),
        v.menu_target matches Some(MenuTarget::Window { id, app_id }) ==> (app_id matches Some(s) ==> exists|j: int|
            0 <= j < menu_spec(v).len() && #[trigger] menu_spec(v)[j] == EntryView::PinToggle(s@, v.pinned.contains(s@))),
        v.menu_target matches Some(MenuTarget::Pinned { app_id }) ==> forall|j: int|
            0 <= j < menu_spec(v).len() ==> (#[trigger] menu_spec(v)[j] matches EntryView::PinToggle(a, b) ==> (a
            == app_id@ && b)),
{
    let m = menu_spec(v);
    match v.menu_target {
        Some(MenuTarget::Window { id, app_id }) => {
            match app_id {
                Some(s) => {
                    assert(m[1] == EntryView::PinToggle(s@, v.pinned.contains(s@)));
                },
                None => {},
            }
        },
        _ => {},
    }
}

} // verus!
