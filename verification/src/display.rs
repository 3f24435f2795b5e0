//! The per-workspace window list the panel shows, rebuilt from the raw
//! compositor state.
use crate::model::{clone_opt_text, opt_text, own_app_id, untitled, WindowInfo, WindowRow, WindowView, WorkspaceInfo, WorkspaceRow, WorkspaceView};
use crate::text::{owned, text_eq};
use std::collections::HashMap;
use vstd::prelude::*;
use vstd::std_specs::hash::spec_hash_map_iter;
use vstd::std_specs::iter::IteratorSpec;

verus! {

broadcast use vstd::std_specs::hash::group_hash_axioms;

/// Every window is stored under its own id.
pub open spec fn keyed_windows(m: Map<u64, WindowInfo>) -> bool {
    forall|k: u64| #[trigger] m.contains_key(k) ==> m[k].id == k
}

/// Every workspace is stored under its own id.
pub open spec fn keyed_workspaces(m: Map<u64, WorkspaceInfo>) -> bool {
    forall|k: u64| #[trigger] m.contains_key(k) ==> m[k].id == k
}

/// A window is listed under workspace `ws_id` when it lives there and is not the
/// applet's own window.
pub open spec fn shown_in(w: WindowInfo, ws_id: u64) -> bool {
    &&& w.workspace_id == Some(ws_id)
    &&& opt_text(w.app_id) != Some(own_app_id())
}

/// The sort key of a window: its scrolling-layout position, floating windows last.
pub open spec fn layout_key(w: WindowInfo) -> (usize, usize) {
    match w.pos_in_scrolling_layout {
        Some(p) => p,
        None => (usize::MAX, usize::MAX),
    }
}

/// The order of the windows listed in a workspace: by layout key, windows with the
/// same key by id.
pub open spec fn window_before(wins: Map<u64, WindowInfo>, a: u64, b: u64) -> bool {
    let ka = layout_key(wins[a]);
    let kb = layout_key(wins[b]);
    ka.0 < kb.0 || (ka.0 == kb.0 && (ka.1 < kb.1 || (ka.1 == kb.1 && a < b)))
}

/// The order of the workspaces: by index, workspaces with the same index by id.
pub open spec fn workspace_before(wss: Map<u64, WorkspaceInfo>, a: u64, b: u64) -> bool {
    wss[a].idx < wss[b].idx || (wss[a].idx == wss[b].idx && a < b)
}

/// The title shown for a window.
pub open spec fn title_text(w: WindowInfo) -> Seq<char> {
    match w.title {
        Some(t) => t@,
        None => untitled(),
    }
}

/// The row shown for a window, given the id of the window marked as focused.
pub open spec fn window_row(w: WindowInfo, focused: Option<u64>) -> WindowRow {
    WindowRow { id: w.id, is_focused: focused == Some(w.id), title: title_text(w), app_id: opt_text(w.app_id) }
}

/// `rows` lists each window of workspace `ws_id` exactly once, in layout order (ties
/// by id).
pub open spec fn rows_of_workspace(
    rows: Seq<WindowRow>,
    ws_id: u64,
    wins: Map<u64, WindowInfo>,
    focused: Option<u64>,
) -> bool {
    &&& forall|j: int|
        0 <= j < rows.len() ==> {
            &&& wins.contains_key(#[trigger] rows[j].id)
            &&& shown_in(wins[rows[j].id], ws_id)
            &&& rows[j] == window_row(wins[rows[j].id], focused)
        }
    &&& forall|k: u64|
        #[trigger] wins.contains_key(k) && shown_in(wins[k], ws_id) ==> exists|j: int|
            0 <= j < rows.len() && #[trigger] rows[j].id == k
    &&& forall|i: int, j: int| 0 <= i < j < rows.len() ==> rows[i].id != rows[j].id
    &&& forall|i: int, j: int|
        0 <= i < j < rows.len() ==> window_before(wins, #[trigger] rows[i].id, #[trigger] rows[j].id)
}

/// `disp` lists each workspace exactly once, ordered by index (ties by id), each with
/// its windows.
pub open spec fn display_consistent(
    disp: Seq<WorkspaceRow>,
    wss: Map<u64, WorkspaceInfo>,
    wins: Map<u64, WindowInfo>,
    focused: Option<u64>,
) -> bool {
    &&& forall|i: int|
        0 <= i < disp.len() ==> {
            &&& wss.contains_key(#[trigger] disp[i].id)
            &&& disp[i].idx == wss[disp[i].id].idx
            &&& disp[i].name == opt_text(wss[disp[i].id].name)
            &&& rows_of_workspace(disp[i].windows, disp[i].id, wins, focused)
        }
    &&& forall|k: u64| #[trigger] wss.contains_key(k) ==> exists|i: int|
        0 <= i < disp.len() && #[trigger] disp[i].id == k
    &&& forall|i: int, j: int| 0 <= i < j < disp.len() ==> disp[i].id != disp[j].id
    &&& forall|i: int, j: int|
        0 <= i < j < disp.len() ==> workspace_before(wss, #[trigger] disp[i].id, #[trigger] disp[j].id)
}

/// Two id lists, each ordered by the strict order `lt`, that hold the same ids are
/// the same list.
pub proof fn lemma_ordered_ids_unique(s: Seq<u64>, t: Seq<u64>, lt: spec_fn(u64, u64) -> bool)
    requires
        forall|a: u64, b: u64| #[trigger] lt(a, b) ==> !lt(b, a),
        forall|i: int, j: int| 0 <= i < j < s.len() ==> lt(#[trigger] s[i], #[trigger] s[j]),
        forall|i: int, j: int| 0 <= i < j < t.len() ==> lt(#[trigger] t[i], #[trigger] t[j]),
        forall|x: u64| s.contains(x) <==> t.contains(x),
    ensures
        s == t,
    decreases s.len(),
{
    if s.len() == 0 {
        if t.len() > 0 {
            assert(t.contains(t[0]));
        }
        assert(s =~= t);
    } else {
        assert(s.contains(s[0]));
        let j = choose|j: int| 0 <= j < t.len() && t[j] == s[0];
        assert(t.contains(t[0]));
        let i = choose|i: int| 0 <= i < s.len() && s[i] == t[0];
        if j > 0 {
            assert(lt(t[0], t[j]));
            if i > 0 {
                assert(lt(s[0], s[i]));
            }
            assert(false);
        }
        let s1 = s.drop_first();
        let t1 = t.drop_first();
        assert forall|x: u64| s1.contains(x) implies t1.contains(x) by {
            let k = choose|k: int| 0 <= k < s1.len() && s1[k] == x;
            assert(s[k + 1] == x);
            assert(lt(s[0], s[k + 1]));
            assert(t.contains(x));
            let m = choose|m: int| 0 <= m < t.len() && t[m] == x;
            if m == 0 {
                assert(x == s[0]);
            }
            assert(t1[m - 1] == x);
        }
        assert forall|x: u64| t1.contains(x) implies s1.contains(x) by {
            let k = choose|k: int| 0 <= k < t1.len() && t1[k] == x;
            assert(t[k + 1] == x);
            assert(lt(t[0], t[k + 1]));
            assert(s.contains(x));
            let m = choose|m: int| 0 <= m < s.len() && s[m] == x;
            if m == 0 {
                assert(x == t[0]);
            }
            assert(s1[m - 1] == x);
        }
        assert forall|a: int, b: int| 0 <= a < b < s1.len() implies lt(#[trigger] s1[a], #[trigger] s1[b]) by {
            assert(s1[a] == s[a + 1] && s1[b] == s[b + 1]);
        }
        assert forall|a: int, b: int| 0 <= a < b < t1.len() implies lt(#[trigger] t1[a], #[trigger] t1[b]) by {
            assert(t1[a] == t[a + 1] && t1[b] == t[b + 1]);
        }
        lemma_ordered_ids_unique(s1, t1, lt);
        assert forall|k: int| 0 <= k < s.len() implies s[k] == t[k] by {
            if k > 0 {
                assert(s[k] == s1[k - 1]);
                assert(t[k] == t1[k - 1]);
            }
        }
        assert(s =~= t);
    }
}

/// The window rows of a workspace are determined by the windows and the marked one.
pub proof fn lemma_rows_unique(
    r1: Seq<WindowRow>,
    r2: Seq<WindowRow>,
    ws_id: u64,
    wins: Map<u64, WindowInfo>,
    focused: Option<u64>,
)
    requires
        rows_of_workspace(r1, ws_id, wins, focused),
        rows_of_workspace(r2, ws_id, wins, focused),
    ensures
        r1 == r2,
{
    let lt = |a: u64, b: u64| window_before(wins, a, b);
    let s = r1.map_values(|r: WindowRow| r.id);
    let t = r2.map_values(|r: WindowRow| r.id);
    assert forall|i: int, j: int| 0 <= i < j < s.len() implies lt(#[trigger] s[i], #[trigger] s[j]) by {
        assert(window_before(wins, r1[i].id, r1[j].id));
    }
    assert forall|i: int, j: int| 0 <= i < j < t.len() implies lt(#[trigger] t[i], #[trigger] t[j]) by {
        assert(window_before(wins, r2[i].id, r2[j].id));
    }
    assert forall|x: u64| s.contains(x) implies t.contains(x) by {
        let k = choose|k: int| 0 <= k < s.len() && s[k] == x;
        assert(wins.contains_key(r1[k].id));
        let m = choose|m: int| 0 <= m < r2.len() && #[trigger] r2[m].id == x;
        assert(t[m] == x);
    }
    assert forall|x: u64| t.contains(x) implies s.contains(x) by {
        let k = choose|k: int| 0 <= k < t.len() && t[k] == x;
        assert(wins.contains_key(r2[k].id));
        let m = choose|m: int| 0 <= m < r1.len() && #[trigger] r1[m].id == x;
        assert(s[m] == x);
    }
    lemma_ordered_ids_unique(s, t, lt);
    assert forall|i: int| 0 <= i < r1.len() implies r1[i] == r2[i] by {
        assert(s[i] == t[i]);
        assert(wins.contains_key(r1[i].id));
        assert(wins.contains_key(r2[i].id));
    }
    assert(r1 =~= r2);
}

/// The panel rows are determined by the workspaces, the windows and the marked one.
pub proof fn lemma_display_unique(
    d1: Seq<WorkspaceRow>,
    d2: Seq<WorkspaceRow>,
    wss: Map<u64, WorkspaceInfo>,
    wins: Map<u64, WindowInfo>,
    focused: Option<u64>,
)
    requires
        display_consistent(d1, wss, wins, focused),
        display_consistent(d2, wss, wins, focused),
    ensures
        d1 == d2,
{
    let lt = |a: u64, b: u64| workspace_before(wss, a, b);
    let s = d1.map_values(|r: WorkspaceRow| r.id);
    let t = d2.map_values(|r: WorkspaceRow| r.id);
    assert forall|i: int, j: int| 0 <= i < j < s.len() implies lt(#[trigger] s[i], #[trigger] s[j]) by {
        assert(workspace_before(wss, d1[i].id, d1[j].id));
    }
    assert forall|i: int, j: int| 0 <= i < j < t.len() implies lt(#[trigger] t[i], #[trigger] t[j]) by {
        assert(workspace_before(wss, d2[i].id, d2[j].id));
    }
    assert forall|x: u64| s.contains(x) implies t.contains(x) by {
        let k = choose|k: int| 0 <= k < s.len() && s[k] == x;
        assert(wss.contains_key(d1[k].id));
        let m = choose|m: int| 0 <= m < d2.len() && #[trigger] d2[m].id == x;
        assert(t[m] == x);
    }
    assert forall|x: u64| t.contains(x) implies s.contains(x) by {
        let k = choose|k: int| 0 <= k < t.len() && t[k] == x;
        assert(wss.contains_key(d2[k].id));
        let m = choose|m: int| 0 <= m < d1.len() && #[trigger] d1[m].id == x;
        assert(s[m] == x);
    }
    lemma_ordered_ids_unique(s, t, lt);
    assert forall|i: int| 0 <= i < d1.len() implies d1[i] == d2[i] by {
        assert(s[i] == t[i]);
        assert(wss.contains_key(d1[i].id));
        assert(wss.contains_key(d2[i].id));
        lemma_rows_unique(d1[i].windows, d2[i].windows, d1[i].id, wins, focused);
    }
    assert(d1 =~= d2);
}

/// The abstract rows of a list of workspace views.
pub open spec fn rows_of(v: Seq<WorkspaceView>) -> Seq<WorkspaceRow> {
    v.map_values(|w: WorkspaceView| w@)
}

/// Lexicographic order on (index, id) pairs.
spec fn pair_le(a: (u8, u64), b: (u8, u64)) -> bool {
    a.0 < b.0 || (a.0 == b.0 && a.1 <= b.1)
}

/// Lexicographic order on (layout key, row) entries: the key, then the id.
spec fn entry_le(a: ((usize, usize), WindowView), b: ((usize, usize), WindowView)) -> bool {
    a.0.0 < b.0.0 || (a.0.0 == b.0.0 && (a.0.1 < b.0.1 || (a.0.1 == b.0.1 && a.1.id <= b.1.id)))
}

spec fn idx_sorted(s: Seq<(u8, u64)>) -> bool {
    forall|i: int, j: int| 0 <= i <= j < s.len() ==> pair_le(#[trigger] s[i], #[trigger] s[j])
}

spec fn key_sorted(s: Seq<((usize, usize), WindowView)>) -> bool {
    forall|i: int, j: int| 0 <= i <= j < s.len() ==> entry_le(#[trigger] s[i], #[trigger] s[j])
}

fn pair_le_exec(a: &(u8, u64), b: &(u8, u64)) -> (res: bool)
    ensures
        res == pair_le(*a, *b),
{
    a.0 < b.0 || (a.0 == b.0 && a.1 <= b.1)
}

fn entry_le_exec(a: &((usize, usize), WindowView), b: &((usize, usize), WindowView)) -> (res: bool)
    ensures
        res == entry_le(*a, *b),
{
    a.0.0 < b.0.0 || (a.0.0 == b.0.0 && (a.0.1 < b.0.1 || (a.0.1 == b.0.1 && a.1.id <= b.1.id)))
}

#[verifier::rlimit(40)]
fn insert_by_idx(out: &mut Vec<(u8, u64)>, x: (u8, u64)) -> (p: usize)
    requires
        idx_sorted(old(out)@),
    ensures
        p <= old(out)@.len(),
        final(out)@ == old(out)@.insert(p as int, x),
        idx_sorted(final(out)@),
{
    let mut p: usize = 0;
    while p < out.len() && pair_le_exec(&out[p], &x)
        invariant
            p <= out.len(),
            idx_sorted(out@),
            forall|i: int| 0 <= i < p ==> pair_le(#[trigger] out@[i], x),
        decreases out.len() - p,
    {
        p += 1;
    }
    let ghost before = out@;
    out.insert(p, x);
    proof {
        before.insert_ensures(p as int, x);
        let after = out@;
        assert forall|i: int, j: int| 0 <= i <= j < after.len() implies pair_le(#[trigger] after[i], #[trigger] after[j]) by {
            if i < p {
                if j < p {
                } else if j == p {
                } else {
                    assert(after[j] == before[j - 1]);
                    assert(pair_le(before[i], before[j - 1]));
                }
            } else if i == p {
                if j > p {
                    assert(after[j] == before[j - 1]);
                    assert(!pair_le(before[p as int], x));
                    assert(pair_le(before[p as int], before[j - 1]));
                }
            } else {
                assert(after[i] == before[i - 1]);
                assert(after[j] == before[j - 1]);
            }
        }
    }
    p
}

fn insert_by_key(out: &mut Vec<((usize, usize), WindowView)>, x: ((usize, usize), WindowView)) -> (p: usize)
    requires
        key_sorted(old(out)@),
    ensures
        p <= old(out)@.len(),
        final(out)@ == old(out)@.insert(p as int, x),
        key_sorted(final(out)@),
{
    let mut p: usize = 0;
    while p < out.len() && entry_le_exec(&out[p], &x)
        invariant
            p <= out.len(),
            key_sorted(out@),
            forall|i: int| 0 <= i < p ==> entry_le(#[trigger] out@[i], x),
        decreases out.len() - p,
    {
        p += 1;
    }
    let ghost before = out@;
    out.insert(p, x);
    proof {
        before.insert_ensures(p as int, x);
        let after = out@;
        assert forall|i: int, j: int| 0 <= i <= j < after.len() implies entry_le(#[trigger] after[i], #[trigger] after[j]) by {
            if i < p {
                if j < p {
                } else if j == p {
                } else {
                    assert(after[j] == before[j - 1]);
                    assert(entry_le(before[i], before[j - 1]));
                }
            } else if i == p {
                if j > p {
                    assert(after[j] == before[j - 1]);
                    assert(!entry_le(before[p as int], x));
                    assert(entry_le(before[p as int], before[j - 1]));
                }
            } else {
                assert(after[i] == before[i - 1]);
                assert(after[j] == before[j - 1]);
            }
        }
    }
    p
}

/// The keys of a map, each once.
pub fn map_keys<V>(m: &HashMap<u64, V>) -> (r: Vec<u64>)
    ensures
        forall|k: u64| #[trigger] m@.contains_key(k) ==> r@.contains(k),
        forall|i: int| 0 <= i < r.len() ==> m@.contains_key(#[trigger] r@[i]),
        r@.no_duplicates(),
{
    let mut r: Vec<u64> = Vec::new();
    for (k, v) in it: m.iter()
        invariant
            r.len() == it.index(),
            it.seq() == spec_hash_map_iter(m).remaining(),
            forall|i: int| 0 <= i < it.index() ==> r@[i] == *(#[trigger] it.seq()[i]).0,
    {
        r.push(*k);
    }
    proof {
        let s = spec_hash_map_iter(m).remaining();
        assert(r@.len() == s.len());
        assert forall|k: u64| #[trigger] m@.contains_key(k) implies r@.contains(k) by {
            assert(s.contains((&k, &m@[k])));
            let j = choose|j: int| 0 <= j < s.len() && s[j] == (&k, &m@[k]);
            assert(r@[j] == k);
        }
        assert forall|i: int| 0 <= i < r.len() implies m@.contains_key(#[trigger] r@[i]) by {
            assert(m@.contains_key(*s[i].0));
        }
        assert forall|i: int, j: int| 0 <= i < j < r.len() implies r@[i] != r@[j] by {
            if r@[i] == r@[j] {
                assert(m@[*s[i].0] == *s[i].1);
                assert(m@[*s[j].0] == *s[j].1);
                assert(s[i] == s[j]);
            }
        }
    }
    r
}

/// `k` is one of the first `n` of `keys` and satisfies `pred`.
spec fn among(keys: Seq<u64>, n: int, k: u64, pred: spec_fn(u64) -> bool) -> bool {
    exists|b: int| #![trigger keys[b]] 0 <= b < n && keys[b] == k && pred(keys[b])
}

/// `k` occurs in `ids`.
spec fn listed(ids: Seq<u64>, k: u64) -> bool {
    exists|a: int| #![trigger ids[a]] 0 <= a < ids.len() && ids[a] == k
}

/// Every id in `ids` is one of the first `n` of `keys` and satisfies `pred`.
spec fn tracks_sound(ids: Seq<u64>, keys: Seq<u64>, n: int, pred: spec_fn(u64) -> bool) -> bool {
    forall|a: int| 0 <= a < ids.len() ==> among(keys, n, #[trigger] ids[a], pred)
}

/// Every key among the first `n` of `keys` that satisfies `pred` is in `ids`.
spec fn tracks_complete(ids: Seq<u64>, keys: Seq<u64>, n: int, pred: spec_fn(u64) -> bool) -> bool {
    forall|b: int| 0 <= b < n && pred(#[trigger] keys[b]) ==> listed(ids, keys[b])
}

/// `ids` holds, each once, every key among the first `n` of `keys` that satisfies
/// `pred`, and nothing else.
spec fn tracks(ids: Seq<u64>, keys: Seq<u64>, n: int, pred: spec_fn(u64) -> bool) -> bool {
    &&& tracks_sound(ids, keys, n, pred)
    &&& tracks_complete(ids, keys, n, pred)
    &&& ids.no_duplicates()
}

proof fn lemma_tracks_skip(ids: Seq<u64>, keys: Seq<u64>, n: int, pred: spec_fn(u64) -> bool)
    requires
        0 <= n < keys.len(),
        !pred(keys[n]),
        tracks(ids, keys, n, pred),
    ensures
        tracks(ids, keys, n + 1, pred),
{
    assert forall|a: int| 0 <= a < ids.len() implies among(keys, n + 1, #[trigger] ids[a], pred) by {
        assert(among(keys, n, ids[a], pred));
        let b = choose|b: int| #![trigger keys[b]] 0 <= b < n && keys[b] == ids[a] && pred(keys[b]);
        assert(0 <= b < n + 1 && keys[b] == ids[a] && pred(keys[b]));
    }
    assert forall|b: int| 0 <= b < n + 1 && pred(#[trigger] keys[b]) implies listed(ids, keys[b]) by {
        assert(b != n);
    }
}

proof fn lemma_tracks_insert(ids: Seq<u64>, p: int, keys: Seq<u64>, n: int, pred: spec_fn(u64) -> bool)
    requires
        0 <= n < keys.len(),
        keys.no_duplicates(),
        pred(keys[n]),
        0 <= p <= ids.len(),
        tracks(ids, keys, n, pred),
    ensures
        tracks(ids.insert(p, keys[n]), keys, n + 1, pred),
{
    let x = keys[n];
    let after = ids.insert(p, x);
    ids.insert_ensures(p, x);
    assert forall|a: int| 0 <= a < after.len() implies among(keys, n + 1, #[trigger] after[a], pred) by {
        if a < p {
            assert(after[a] == ids[a]);
            assert(among(keys, n, ids[a], pred));
            let b = choose|b: int| #![trigger keys[b]] 0 <= b < n && keys[b] == ids[a] && pred(keys[b]);
            assert(0 <= b < n + 1 && keys[b] == after[a] && pred(keys[b]));
        } else if a == p {
            assert(keys[n] == after[a]);
        } else {
            assert(after[a] == ids[a - 1]);
            assert(among(keys, n, ids[a - 1], pred));
            let b = choose|b: int| #![trigger keys[b]] 0 <= b < n && keys[b] == ids[a - 1] && pred(keys[b]);
            assert(0 <= b < n + 1 && keys[b] == after[a] && pred(keys[b]));
        }
    }
    assert forall|b: int| 0 <= b < n + 1 && pred(#[trigger] keys[b]) implies listed(after, keys[b]) by {
        if b == n {
            assert(after[p] == keys[b]);
        } else {
            assert(listed(ids, keys[b]));
            let a0 = choose|a: int| #![trigger ids[a]] 0 <= a < ids.len() && ids[a] == keys[b];
            if a0 < p {
                assert(after[a0] == ids[a0]);
            } else {
                assert(after[a0 + 1] == ids[a0]);
            }
        }
    }
    assert forall|a1: int, a2: int| 0 <= a1 < after.len() && 0 <= a2 < after.len() && a1 != a2 implies after[a1] != after[a2] by {
        if a1 == p || a2 == p {
            let o = if a1 == p { a2 } else { a1 };
            let bo = if o < p { o } else { o - 1 };
            assert(after[o] == ids[bo]);
            assert(among(keys, n, ids[bo], pred));
            let b = choose|b: int| #![trigger keys[b]] 0 <= b < n && keys[b] == ids[bo] && pred(keys[b]);
            assert(keys[b] != keys[n]);
        } else {
            let b1 = if a1 < p { a1 } else { a1 - 1 };
            let b2 = if a2 < p { a2 } else { a2 - 1 };
            assert(after[a1] == ids[b1]);
            assert(after[a2] == ids[b2]);
        }
    }
}

/// Inserting into a sequence commutes with mapping it.
proof fn lemma_map_insert<A, B>(s: Seq<A>, p: int, x: A, f: spec_fn(A) -> B)
    requires
        0 <= p <= s.len(),
    ensures
        s.insert(p, x).map_values(f) == s.map_values(f).insert(p, f(x)),
{
    s.insert_ensures(p, x);
    s.map_values(f).insert_ensures(p, f(x));
    assert(s.insert(p, x).map_values(f) =~= s.map_values(f).insert(p, f(x)));
}

spec fn pair_id(e: (u8, u64)) -> u64 {
    e.1
}

spec fn always(k: u64) -> bool {
    true
}

/// The workspaces as (index, id) pairs, sorted by index and then id, each once.
fn workspace_order(wss: &HashMap<u64, WorkspaceInfo>) -> (res: Vec<(u8, u64)>)
    requires
        keyed_workspaces(wss@),
    ensures
        forall|i: int|
            0 <= i < res@.len() ==> wss@.contains_key(#[trigger] res@[i].1) && wss@[res@[i].1].idx
                == res@[i].0,
        forall|k: u64| #[trigger] wss@.contains_key(k) ==> exists|i: int|
            0 <= i < res@.len() && #[trigger] res@[i].1 == k,
        forall|i: int, j: int| 0 <= i < j < res@.len() ==> res@[i].1 != res@[j].1,
        idx_sorted(res@),
{
    let keys = map_keys(wss);
    let mut out: Vec<(u8, u64)> = Vec::new();
    let mut n: usize = 0;
    while n < keys.len()
        invariant
            n <= keys.len(),
            keys@.no_duplicates(),
            forall|i: int| 0 <= i < keys.len() ==> wss@.contains_key(#[trigger] keys@[i]),
            idx_sorted(out@),
            tracks(out@.map_values(|e: (u8, u64)| pair_id(e)), keys@, n as int, |k: u64| always(k)),
            forall|i: int|
                0 <= i < out@.len() ==> wss@.contains_key(#[trigger] out@[i].1) && wss@[out@[i].1].idx
                    == out@[i].0,
        decreases keys.len() - n,
    {
        let k = keys[n];
        let idx = match wss.get(&k) {
            Some(ws) => ws.idx,
            None => 0,
        };
        let ghost before = out@;
        let p = insert_by_idx(&mut out, (idx, k));
        proof {
            lemma_map_insert(before, p as int, (idx, k), |e: (u8, u64)| pair_id(e));
            lemma_tracks_insert(before.map_values(|e: (u8, u64)| pair_id(e)), p as int, keys@, n as int, |k: u64| always(k));
            before.insert_ensures(p as int, (idx, k));
            assert forall|i: int|
                0 <= i < out@.len() implies wss@.contains_key(#[trigger] out@[i].1) && wss@[out@[i].1].idx
                == out@[i].0 by {
                if i < p {
                    assert(out@[i] == before[i]);
                } else if i > p {
                    assert(out@[i] == before[i - 1]);
                }
            }
        }
        n += 1;
    }
    proof {
        assert forall|k: u64| #[trigger] wss@.contains_key(k) implies exists|i: int|
            0 <= i < out@.len() && #[trigger] out@[i].1 == k by {
            assert(keys@.contains(k));
            let b = choose|b: int| 0 <= b < keys@.len() && keys@[b] == k;
            assert(always(keys@[b]));
            let ids = out@.map_values(|e: (u8, u64)| pair_id(e));
            assert(listed(ids, keys@[b]));
            let a = choose|a: int| #![trigger ids[a]] 0 <= a < ids.len() && ids[a] == keys@[b];
            assert(out@[a].1 == k);
        }
        assert forall|i: int, j: int| 0 <= i < j < out@.len() implies out@[i].1 != out@[j].1 by {
            let ids = out@.map_values(|e: (u8, u64)| pair_id(e));
            assert(ids[i] != ids[j]);
        }
    }
    out
}

spec fn entry_id(e: ((usize, usize), WindowView)) -> u64 {
    e.1.id
}

/// The abstract row of a window view.
pub open spec fn row_of(w: WindowView) -> WindowRow {
    w@
}

/// Whether the window is listed under workspace `ws_id`.
fn is_shown_in(w: &WindowInfo, ws_id: u64) -> (res: bool)
    ensures
        res == shown_in(*w, ws_id),
{
    let on_ws = match w.workspace_id {
        Some(x) => x == ws_id,
        None => false,
    };
    let own = match &w.app_id {
        Some(a) => text_eq(a.as_str(), "com.github.ton.CosmicExtNiriWindows"),
        None => false,
    };
    on_ws && !own
}

/// The row shown for a window.
fn make_row(w: &WindowInfo, focused: Option<u64>) -> (res: WindowView)
    ensures
        res@ == window_row(*w, focused),
{
    let title = match &w.title {
        Some(t) => t.clone(),
        None => owned("Window"),
    };
    let is_focused = match focused {
        Some(f) => f == w.id,
        None => false,
    };
    WindowView { id: w.id, is_focused, title, app_id: clone_opt_text(&w.app_id) }
}

/// The windows of workspace `ws_id`, in layout order, each once.
pub fn windows_of_workspace(wins: &HashMap<u64, WindowInfo>, ws_id: u64, focused: Option<u64>) -> (res: Vec<WindowView>)
    requires
        keyed_windows(wins@),
    ensures
        rows_of_workspace(res@.map_values(|w: WindowView| row_of(w)), ws_id, wins@, focused),
{
    let keys = map_keys(wins);
    let mut out: Vec<((usize, usize), WindowView)> = Vec::new();
    let ghost pred = |k: u64| shown_in(wins@[k], ws_id);
    let mut n: usize = 0;
    while n < keys.len()
        invariant
            n <= keys.len(),
            keyed_windows(wins@),
            keys@.no_duplicates(),
            forall|i: int| 0 <= i < keys.len() ==> wins@.contains_key(#[trigger] keys@[i]),
            pred == (|k: u64| shown_in(wins@[k], ws_id)),
            key_sorted(out@),
            tracks(out@.map_values(|e: ((usize, usize), WindowView)| entry_id(e)), keys@, n as int, pred),
            forall|i: int|
                0 <= i < out@.len() ==> {
                    &&& wins@.contains_key(#[trigger] out@[i].1.id)
                    &&& out@[i].1@ == window_row(wins@[out@[i].1.id], focused)
                    &&& out@[i].0 == layout_key(wins@[out@[i].1.id])
                },
        decreases keys.len() - n,
    {
        let k = keys[n];
        let ghost before = out@;
        let ghost ids = before.map_values(|e: ((usize, usize), WindowView)| entry_id(e));
        match wins.get(&k) {
            Some(w) => {
                if is_shown_in(w, ws_id) {
                    let key = match w.pos_in_scrolling_layout {
                        Some(p) => p,
                        None => (usize::MAX, usize::MAX),
                    };
                    let row = make_row(w, focused);
                    let p = insert_by_key(&mut out, (key, row));
                    proof {
                        assert(w.id == k);
                        lemma_map_insert(before, p as int, (key, row), |e: ((usize, usize), WindowView)| entry_id(e));
                        lemma_tracks_insert(ids, p as int, keys@, n as int, pred);
                        before.insert_ensures(p as int, (key, row));
                        assert forall|i: int| 0 <= i < out@.len() implies {
                            &&& wins@.contains_key(#[trigger] out@[i].1.id)
                            &&& out@[i].1@ == window_row(wins@[out@[i].1.id], focused)
                            &&& out@[i].0 == layout_key(wins@[out@[i].1.id])
                        } by {
                            if i < p {
                                assert(out@[i] == before[i]);
                            } else if i > p {
                                assert(out@[i] == before[i - 1]);
                            }
                        }
                    }
                } else {
                    proof {
                        lemma_tracks_skip(ids, keys@, n as int, pred);
                    }
                }
            },
            None => {
                proof {
                    assert(false);
                }
            },
        }
        n += 1;
    }
    let mut res: Vec<WindowView> = Vec::new();
    let mut j: usize = 0;
    while j < out.len()
        invariant
            j <= out.len(),
            res@.len() == j,
            forall|i: int| 0 <= i < j ==> #[trigger] res@[i] == out@[i].1,
        decreases out.len() - j,
    {
        res.push(out[j].1.copy());
        j += 1;
    }
    proof {
        let rows = res@.map_values(|w: WindowView| row_of(w));
        let ids = out@.map_values(|e: ((usize, usize), WindowView)| entry_id(e));
        assert forall|i: int| 0 <= i < rows.len() implies rows[i].id == ids[i] && rows[i] == out@[i].1@ by {
            assert(res@[i] == out@[i].1);
        }
        assert forall|k: u64| #[trigger] wins@.contains_key(k) && shown_in(wins@[k], ws_id) implies exists|j: int|
            0 <= j < rows.len() && #[trigger] rows[j].id == k by {
            assert(keys@.contains(k));
            let b = choose|b: int| 0 <= b < keys@.len() && keys@[b] == k;
            assert(pred(keys@[b]));
            assert(listed(ids, keys@[b]));
            let a = choose|a: int| #![trigger ids[a]] 0 <= a < ids.len() && ids[a] == keys@[b];
            assert(rows[a].id == k);
        }
        assert forall|i: int, j: int| 0 <= i < j < rows.len() implies rows[i].id != rows[j].id by {
            assert(ids[i] != ids[j]);
        }
        assert forall|i: int, j: int| 0 <= i < j < rows.len() implies window_before(wins@, #[trigger] rows[i].id, #[trigger] rows[j].id) by {
            assert(entry_le(out@[i], out@[j]));
            assert(ids[i] != ids[j]);
        }
    }
    res
}

/// The panel content for the given raw state: each workspace once, ordered by index,
/// each with its windows in layout order.
pub fn rebuild_display(
    wss: &HashMap<u64, WorkspaceInfo>,
    wins: &HashMap<u64, WindowInfo>,
    focused: Option<u64>,
) -> (res: Vec<WorkspaceView>)
    requires
        keyed_workspaces(wss@),
        keyed_windows(wins@),
    ensures
        display_consistent(rows_of(res@), wss@, wins@, focused),
{
    let order = workspace_order(wss);
    let mut res: Vec<WorkspaceView> = Vec::new();
    let mut i: usize = 0;
    while i < order.len()
        invariant
            i <= order.len(),
            keyed_windows(wins@),
            res@.len() == i,
            forall|a: int|
                0 <= a < order@.len() ==> wss@.contains_key(#[trigger] order@[a].1) && wss@[order@[a].1].idx
                    == order@[a].0,
            forall|a: int| 0 <= a < i ==> {
                &&& (#[trigger] res@[a]).id == order@[a].1
                &&& res@[a].idx == order@[a].0
                &&& opt_text(res@[a].name) == opt_text(wss@[order@[a].1].name)
                &&& rows_of_workspace(res@[a].windows@.map_values(|w: WindowView| row_of(w)), res@[a].id, wins@, focused)
            },
        decreases order.len() - i,
    {
        let (idx, id) = order[i];
        let name = match wss.get(&id) {
            Some(ws) => clone_opt_text(&ws.name),
            None => None,
        };
        let windows = windows_of_workspace(wins, id, focused);
        res.push(WorkspaceView { id, idx, name, windows });
        i += 1;
    }
    proof {
        let rows = rows_of(res@);
        assert forall|a: int| 0 <= a < rows.len() implies rows[a].id == order@[a].1 && rows[a].idx == order@[a].0
            && rows[a].windows == res@[a].windows@.map_values(|w: WindowView| row_of(w)) by {
            assert(rows[a] == res@[a]@);
            assert(res@[a].windows@.map_values(|w: WindowView| w@) =~= res@[a].windows@.map_values(|w: WindowView| row_of(w)));
        }
        assert forall|k: u64| #[trigger] wss@.contains_key(k) implies exists|a: int|
            0 <= a < rows.len() && #[trigger] rows[a].id == k by {
            let a = choose|a: int| 0 <= a < order@.len() && #[trigger] order@[a].1 == k;
            assert(rows[a].id == k);
        }
        assert forall|a: int, b: int| 0 <= a < b < rows.len() implies workspace_before(wss@, #[trigger] rows[a].id, #[trigger] rows[b].id) by {
            assert(pair_le(order@[a], order@[b]));
            assert(order@[a].1 != order@[b].1);
        }
    }
    res
}

} // verus!
