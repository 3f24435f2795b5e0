//! The raw compositor state kept by the applet: the workspaces of its output and
//! the windows on them, keyed by id, and the operations that refresh them.
use crate::display::{keyed_windows, keyed_workspaces, map_keys};
use crate::model::{fallback_icon, opt_text, WindowInfo, WorkspaceInfo};
use crate::text::{chars_of, owned, text_eq};
use std::collections::HashMap;
use vstd::prelude::*;

verus! {

broadcast use vstd::std_specs::hash::group_hash_axioms;

/// A workspace is on the applet's output when no output name is known, or when the
/// names agree.
pub open spec fn on_output(ws: WorkspaceInfo, output: Seq<char>) -> bool {
    output.len() == 0 || opt_text(ws.output) == Some(output)
}

/// A window belongs to the tracked workspaces when it sits on one of them.
pub open spec fn belongs(w: WindowInfo, wss: Map<u64, WorkspaceInfo>) -> bool {
    match w.workspace_id {
        Some(id) => wss.contains_key(id),
        None => false,
    }
}

/// The workspaces of a reported list that are on the output, keyed by id; a later
/// entry with the same id replaces an earlier one.
pub open spec fn workspaces_from(list: Seq<WorkspaceInfo>, output: Seq<char>) -> Map<u64, WorkspaceInfo>
    decreases list.len(),
{
    if list.len() == 0 {
        Map::empty()
    } else {
        let m = workspaces_from(list.drop_last(), output);
        let w = list.last();
        if on_output(w, output) {
            m.insert(w.id, w)
        } else {
            m
        }
    }
}

/// The windows of a reported list that belong to `wss`, keyed by id; a later entry
/// with the same id replaces an earlier one.
pub open spec fn windows_from(list: Seq<WindowInfo>, wss: Map<u64, WorkspaceInfo>) -> Map<u64, WindowInfo>
    decreases list.len(),
{
    if list.len() == 0 {
        Map::empty()
    } else {
        let m = windows_from(list.drop_last(), wss);
        let w = list.last();
        if belongs(w, wss) {
            m.insert(w.id, w)
        } else {
            m
        }
    }
}

/// The windows of `m` that still belong to `wss`.
pub open spec fn retain_belonging(m: Map<u64, WindowInfo>, wss: Map<u64, WorkspaceInfo>) -> Map<u64, WindowInfo> {
    Map::new(|k: u64| m.contains_key(k) && belongs(m[k], wss), |k: u64| m[k])
}

/// Workspace `id` becomes the active one (focused as given); every other workspace
/// becomes inactive and unfocused.
pub open spec fn activate(m: Map<u64, WorkspaceInfo>, id: u64, focused: bool) -> Map<u64, WorkspaceInfo> {
    Map::new(
        |k: u64| m.contains_key(k),
        |k: u64|
            if k == id {
                WorkspaceInfo { is_active: true, is_focused: focused, ..m[k] }
            } else {
                WorkspaceInfo { is_active: false, is_focused: false, ..m[k] }
            },
    )
}

/// The windows after the layout changes are applied in order; changes for unknown
/// windows are ignored.
pub open spec fn apply_layouts(m: Map<u64, WindowInfo>, changes: Seq<(u64, Option<(usize, usize)>)>) -> Map<u64, WindowInfo>
    decreases changes.len(),
{
    if changes.len() == 0 {
        m
    } else {
        let m1 = apply_layouts(m, changes.drop_last());
        let c = changes.last();
        if m1.contains_key(c.0) {
            m1.insert(c.0, WindowInfo { pos_in_scrolling_layout: c.1, ..m1[c.0] })
        } else {
            m1
        }
    }
}

/// Some window reports focus.
pub open spec fn some_focused(m: Map<u64, WindowInfo>) -> bool {
    exists|k: u64| #[trigger] m.contains_key(k) && m[k].is_focused
}

/// The window marked as focused after a refresh: a window that reports focus if
/// there is one; otherwise, when `any` is set and there are windows, one of them;
/// otherwise it stays `pre`.
pub open spec fn refocused(m: Map<u64, WindowInfo>, any: bool, pre: Option<u64>, post: Option<u64>) -> bool {
    if some_focused(m) {
        post matches Some(k) && m.contains_key(k) && m[k].is_focused
    } else if any && exists|k: u64| #[trigger] m.contains_key(k) {
        post matches Some(k) && m.contains_key(k)
    } else {
        post == pre
    }
}

/// The icon name under which a window's icon is looked up.
pub open spec fn icon_key(w: WindowInfo) -> Seq<char> {
    match opt_text(w.app_id) {
        Some(a) => a,
        None => fallback_icon(),
    }
}

/// The icons the panel needs: one per window application and one per pinned
/// application.
pub open spec fn icons_needed(m: Map<u64, WindowInfo>, pinned: Seq<Seq<char>>) -> Set<Seq<char>> {
    Set::new(|t: Seq<char>| (exists|k: u64| #[trigger] m.contains_key(k) && icon_key(m[k]) == t) || pinned.contains(t))
}

/// Whether a window sits on one of the tracked workspaces.
pub fn window_belongs(w: &WindowInfo, wss: &HashMap<u64, WorkspaceInfo>) -> (res: bool)
    ensures
        res == belongs(*w, wss@),
{
    match w.workspace_id {
        Some(id) => wss.contains_key(&id),
        None => false,
    }
}

/// Whether a workspace is on the output.
pub fn workspace_on_output(ws: &WorkspaceInfo, output: &str) -> (res: bool)
    ensures
        res == on_output(*ws, output@),
{
    if chars_of(output).len() == 0 {
        return true;
    }
    match &ws.output {
        Some(o) => text_eq(o.as_str(), output),
        None => false,
    }
}

/// The workspaces of a reported list that are on the output, keyed by id.
pub fn map_workspaces(list: Vec<WorkspaceInfo>, output: &str) -> (m: HashMap<u64, WorkspaceInfo>)
    ensures
        m@ == workspaces_from(list@, output@),
        keyed_workspaces(m@),
{
    let ghost l = list@;
    let mut m: HashMap<u64, WorkspaceInfo> = HashMap::new();
    proof {
        assert(l.take(0) =~= Seq::<WorkspaceInfo>::empty());
        assert(m@ =~= workspaces_from(l.take(0), output@));
    }
    for ws in it: list.into_iter()
        invariant
            it.seq() == l,
            m@ == workspaces_from(l.take(it.index() as int), output@),
            keyed_workspaces(m@),
    {
        let ghost n = it.index() as int;
        proof {
            assert(l.take(n + 1).drop_last() =~= l.take(n));
            assert(l.take(n + 1).last() == ws);
        }
        if workspace_on_output(&ws, output) {
            m.insert(ws.id, ws);
        }
    }
    proof {
        assert(l.take(l.len() as int) =~= l);
    }
    m
}

/// The windows of a reported list that sit on the tracked workspaces, keyed by id.
pub fn map_windows(list: Vec<WindowInfo>, wss: &HashMap<u64, WorkspaceInfo>) -> (m: HashMap<u64, WindowInfo>)
    ensures
        m@ == windows_from(list@, wss@),
        keyed_windows(m@),
{
    let ghost l = list@;
    let mut m: HashMap<u64, WindowInfo> = HashMap::new();
    proof {
        assert(l.take(0) =~= Seq::<WindowInfo>::empty());
        assert(m@ =~= windows_from(l.take(0), wss@));
    }
    for w in it: list.into_iter()
        invariant
            it.seq() == l,
            m@ == windows_from(l.take(it.index() as int), wss@),
            keyed_windows(m@),
    {
        let ghost n = it.index() as int;
        proof {
            assert(l.take(n + 1).drop_last() =~= l.take(n));
            assert(l.take(n + 1).last() == w);
        }
        if window_belongs(&w, wss) {
            m.insert(w.id, w);
        }
    }
    proof {
        assert(l.take(l.len() as int) =~= l);
    }
    m
}

/// Drops the windows that no longer sit on a tracked workspace.
pub fn retain_windows(m: &mut HashMap<u64, WindowInfo>, wss: &HashMap<u64, WorkspaceInfo>)
    requires
        keyed_windows(old(m)@),
    ensures
        final(m)@ == retain_belonging(old(m)@, wss@),
        keyed_windows(final(m)@),
{
    let keys = map_keys(m);
    let ghost m0 = m@;
    let mut i: usize = 0;
    while i < keys.len()
        invariant
            i <= keys.len(),
            keys@.no_duplicates(),
            forall|k: u64| #[trigger] m0.contains_key(k) ==> keys@.contains(k),
            forall|j: int| 0 <= j < keys.len() ==> m0.contains_key(#[trigger] keys@[j]),
            keyed_windows(m@),
            forall|k: u64| #[trigger] m@.contains_key(k) ==> m0.contains_key(k) && m@[k] == m0[k],
            forall|k: u64|
                #[trigger] m0.contains_key(k) ==> (m@.contains_key(k) <==> (belongs(m0[k], wss@) || exists|j: int|
                    i <= j < keys.len() && keys@[j] == k)),
        decreases keys.len() - i,
    {
        let k = keys[i];
        let keep = match m.get(&k) {
            Some(w) => window_belongs(w, wss),
            None => true,
        };
        if !keep {
            m.remove(&k);
        }
        proof {
            assert forall|k2: u64|
                #[trigger] m0.contains_key(k2) implies (m@.contains_key(k2) <==> (belongs(m0[k2], wss@) || exists|j: int|
                i + 1 <= j < keys.len() && keys@[j] == k2)) by {
                if k2 == k {
                    if exists|j: int| i + 1 <= j < keys.len() && keys@[j] == k2 {
                        let j = choose|j: int| i + 1 <= j < keys.len() && keys@[j] == k2;
                        assert(keys@[j] == keys@[i as int]);
                    }
                } else {
                    if exists|j: int| i <= j < keys.len() && keys@[j] == k2 {
                        let j = choose|j: int| i <= j < keys.len() && keys@[j] == k2;
                        assert(j != i);
                    }
                }
            }
        }
        i += 1;
    }
    proof {
        assert(m@ =~= retain_belonging(m0, wss@));
    }
}

/// Marks workspace `id` active (focused as given) and every other one inactive.
pub fn activate_workspace(m: &mut HashMap<u64, WorkspaceInfo>, id: u64, focused: bool)
    requires
        keyed_workspaces(old(m)@),
    ensures
        final(m)@ == activate(old(m)@, id, focused),
        keyed_workspaces(final(m)@),
{
    let keys = map_keys(m);
    let ghost m0 = m@;
    let mut i: usize = 0;
    while i < keys.len()
        invariant
            i <= keys.len(),
            keys@.no_duplicates(),
            forall|k: u64| #[trigger] m0.contains_key(k) ==> keys@.contains(k),
            forall|j: int| 0 <= j < keys.len() ==> m0.contains_key(#[trigger] keys@[j]),
            keyed_workspaces(m0),
            m@.dom() == m0.dom(),
            forall|k: u64|
                #[trigger] m0.contains_key(k) ==> (if exists|j: int| 0 <= j < i && keys@[j] == k {
                    m@[k] == activate(m0, id, focused)[k]
                } else {
                    m@[k] == m0[k]
                }),
        decreases keys.len() - i,
    {
        let k = keys[i];
        match m.remove(&k) {
            Some(mut ws) => {
                if k == id {
                    ws.is_active = true;
                    ws.is_focused = focused;
                } else {
                    ws.is_active = false;
                    ws.is_focused = false;
                }
                m.insert(k, ws);
            },
            None => {},
        }
        proof {
            assert(m@.dom() =~= m0.dom());
            assert forall|k2: u64| #[trigger] m0.contains_key(k2) implies (if exists|j: int| 0 <= j < i + 1 && keys@[j] == k2 {
                m@[k2] == activate(m0, id, focused)[k2]
            } else {
                m@[k2] == m0[k2]
            }) by {
                if k2 == k {
                    assert(keys@[i as int] == k2);
                    if exists|j: int| 0 <= j < i && keys@[j] == k2 {
                        let j = choose|j: int| 0 <= j < i && keys@[j] == k2;
                        assert(keys@[j] == keys@[i as int]);
                    }
                } else {
                    if exists|j: int| 0 <= j < i + 1 && keys@[j] == k2 {
                        let j = choose|j: int| 0 <= j < i + 1 && keys@[j] == k2;
                        assert(j != i);
                    }
                }
            }
        }
        i += 1;
    }
    proof {
        assert forall|k: u64| #[trigger] m0.contains_key(k) implies m@[k] == activate(m0, id, focused)[k] by {
            assert(keys@.contains(k));
            let j = choose|j: int| 0 <= j < keys.len() && keys@[j] == k;
        }
        assert(m@ =~= activate(m0, id, focused));
    }
}

/// Applies the layout changes in order.
pub fn apply_layout_changes(m: &mut HashMap<u64, WindowInfo>, changes: Vec<(u64, Option<(usize, usize)>)>) -> (changed: bool)
    requires
        keyed_windows(old(m)@),
    ensures
        final(m)@ == apply_layouts(old(m)@, changes@),
        keyed_windows(final(m)@),
        !changed ==> final(m)@ == old(m)@,
{
    let ghost m0 = m@;
    let ghost l = changes@;
    let mut changed = false;
    proof {
        assert(l.take(0) =~= Seq::<(u64, Option<(usize, usize)>)>::empty());
    }
    for c in it: changes.into_iter()
        invariant
            it.seq() == l,
            m@ == apply_layouts(m0, l.take(it.index() as int)),
            keyed_windows(m@),
            !changed ==> m@ == m0,
    {
        let ghost n = it.index() as int;
        proof {
            assert(l.take(n + 1).drop_last() =~= l.take(n));
            assert(l.take(n + 1).last() == c);
        }
        let (id, pos) = c;
        match m.remove(&id) {
            Some(mut w) => {
                w.pos_in_scrolling_layout = pos;
                m.insert(id, w);
                changed = true;
                proof {
                    assert(m@ =~= apply_layouts(m0, l.take(n + 1)));
                }
            },
            None => {
                proof {
                    assert(m@ =~= apply_layouts(m0, l.take(n + 1)));
                }
            },
        }
    }
    proof {
        assert(l.take(l.len() as int) =~= l);
    }
    changed
}

/// The window to mark as focused: one that reports focus, else (when `any` is set)
/// any window, else none.
pub fn pick_focus(m: &HashMap<u64, WindowInfo>, any: bool) -> (res: Option<u64>)
    requires
        keyed_windows(m@),
    ensures
        some_focused(m@) ==> (res matches Some(k) && m@.contains_key(k) && m@[k].is_focused),
        !some_focused(m@) && any && (exists|k: u64| #[trigger] m@.contains_key(k)) ==> (res matches Some(k)
            && m@.contains_key(k)),
        !some_focused(m@) && !(any && exists|k: u64| #[trigger] m@.contains_key(k)) ==> res is None,
{
    let keys = map_keys(m);
    let mut i: usize = 0;
    while i < keys.len()
        invariant
            i <= keys.len(),
            forall|j: int| 0 <= j < keys.len() ==> m@.contains_key(#[trigger] keys@[j]),
            forall|j: int| 0 <= j < i ==> !m@[#[trigger] keys@[j]].is_focused,
        decreases keys.len() - i,
    {
        let k = keys[i];
        match m.get(&k) {
            Some(w) => {
                if w.is_focused {
                    return Some(k);
                }
            },
            None => {},
        }
        i += 1;
    }
    proof {
        assert forall|k: u64| #[trigger] m@.contains_key(k) implies !m@[k].is_focused by {
            assert(keys@.contains(k));
            let j = choose|j: int| 0 <= j < keys.len() && keys@[j] == k;
        }
    }
    if any && keys.len() > 0 {
        Some(keys[0])
    } else {
        proof {
            if any {
                assert forall|k: u64| !m@.contains_key(k) by {
                    if m@.contains_key(k) {
                        assert(keys@.contains(k));
                    }
                }
            }
        }
        None
    }
}

/// The icon name of a window.
pub fn window_icon_key(w: &WindowInfo) -> (res: String)
    ensures
        res@ == icon_key(*w),
{
    match &w.app_id {
        Some(a) => a.clone(),
        None => owned("preferences-system-windows-symbolic"),
    }
}

/// The workspaces taken from a list are keyed by id and on the output.
pub proof fn lemma_workspaces_from(list: Seq<WorkspaceInfo>, output: Seq<char>)
    ensures
        keyed_workspaces(workspaces_from(list, output)),
        forall|k: u64| #[trigger] workspaces_from(list, output).contains_key(k) ==> on_output(workspaces_from(list, output)[k], output),
    decreases list.len(),
{
    if list.len() > 0 {
        lemma_workspaces_from(list.drop_last(), output);
    }
}

/// The windows taken from a list are keyed by id and sit on the tracked workspaces.
pub proof fn lemma_windows_from(list: Seq<WindowInfo>, wss: Map<u64, WorkspaceInfo>)
    ensures
        keyed_windows(windows_from(list, wss)),
        forall|k: u64| #[trigger] windows_from(list, wss).contains_key(k) ==> belongs(windows_from(list, wss)[k], wss),
    decreases list.len(),
{
    if list.len() > 0 {
        lemma_windows_from(list.drop_last(), wss);
    }
}

/// Layout changes keep every window under its id and on its workspace.
pub proof fn lemma_apply_layouts(m: Map<u64, WindowInfo>, changes: Seq<(u64, Option<(usize, usize)>)>, wss: Map<u64, WorkspaceInfo>)
    requires
        keyed_windows(m),
        forall|k: u64| #[trigger] m.contains_key(k) ==> belongs(m[k], wss),
    ensures
        keyed_windows(apply_layouts(m, changes)),
        forall|k: u64| #[trigger] apply_layouts(m, changes).contains_key(k) ==> belongs(apply_layouts(m, changes)[k], wss),
    decreases changes.len(),
{
    if changes.len() > 0 {
        lemma_apply_layouts(m, changes.drop_last(), wss);
    }
}

} // verus!
