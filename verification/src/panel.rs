//! What the panel shows, in order: pinned applications that have no window, then
//! each workspace's window buttons, separated by dividers.
use crate::model::{clone_opt_text, fallback_icon, opt_text, WindowRow, WindowView, WorkspaceRow};
use crate::display::rows_of;
use crate::state::{app_is_open, AppModel, ModelView};
use crate::text::{chars_eq, chars_of, owned, string_of};
use crate::texts::texts_view;
use vstd::prelude::*;

verus! {

/// One element of the panel.
#[derive(Clone, Debug)]
pub enum PanelItem {
    /// A one-pixel spacer shown when there is nothing else.
    Placeholder,
    /// The divider before everything else.
    StartDivider,
    /// A pinned application with no open window, at position `index` of the pinned list.
    Pinned { index: usize, app_id: String, hovered: bool },
    /// The divider before a workspace group.
    Divider,
    /// The name (or number) of a workspace.
    WorkspaceLabel { text: String },
    /// A window button.
    Window { id: u64, icon: String, title: String, focused: bool, app_id: Option<String> },
    /// The divider after everything else.
    EndDivider,
}

/// The abstract content of a `PanelItem`.
pub enum ItemView {
    Placeholder,
    StartDivider,
    Pinned(usize, Seq<char>, bool),
    Divider,
    WorkspaceLabel(Seq<char>),
    Window(u64, Seq<char>, Seq<char>, bool, Option<Seq<char>>),
    EndDivider,
}

impl View for PanelItem {
    type V = ItemView;

    open spec fn view(&self) -> ItemView {
        match self {
            PanelItem::Placeholder => ItemView::Placeholder,
            PanelItem::StartDivider => ItemView::StartDivider,
            PanelItem::Pinned { index, app_id, hovered } => ItemView::Pinned(*index, app_id@, *hovered),
            PanelItem::Divider => ItemView::Divider,
            PanelItem::WorkspaceLabel { text } => ItemView::WorkspaceLabel(text@),
            PanelItem::Window { id, icon, title, focused, app_id } => ItemView::Window(
                *id,
                icon@,
                title@,
                *focused,
                opt_text(*app_id),
            ),
            PanelItem::EndDivider => ItemView::EndDivider,
        }
    }
}

/// The abstract content of a list of panel items.
pub open spec fn items_view(v: Seq<PanelItem>) -> Seq<ItemView> {
    v.map_values(|i: PanelItem| i@)
}

/// The character of a decimal digit.
pub open spec fn digit(d: nat) -> char {
    ((d + 48) as u8) as char
}

/// The decimal digits of a number.
pub open spec fn decimal(n: nat) -> Seq<char>
    decreases n,
{
    if n < 10 {
        seq![digit(n)]
    } else {
        decimal(n / 10).push(digit(n % 10))
    }
}

/// The decimal text of a small number.
pub fn u8_to_decimal(n: u8) -> (res: String)
    ensures
        res@ == decimal(n as nat),
{
    let mut cs: Vec<char> = Vec::new();
    if n >= 100 {
        cs.push((n / 100 + 48) as char);
    }
    if n >= 10 {
        cs.push((n / 10 % 10 + 48) as char);
    }
    cs.push((n % 10 + 48) as char);
    proof {
        reveal_with_fuel(decimal, 3);
        if n >= 100 {
            assert(decimal(n as nat / 10) == decimal(n as nat / 100).push(digit((n as nat / 10) % 10)));
            assert(cs@ =~= decimal(n as nat));
        } else if n >= 10 {
            assert(cs@ =~= decimal(n as nat));
        } else {
            assert(cs@ =~= decimal(n as nat));
        }
    }
    string_of(cs.as_slice())
}

/// The label of a workspace group: its name, else its number.
pub open spec fn label_text(w: WorkspaceRow) -> Seq<char> {
    match w.name {
        Some(n) => n,
        None => decimal(w.idx as nat),
    }
}

/// The icon name of a window button.
pub open spec fn button_icon(r: WindowRow) -> Seq<char> {
    match r.app_id {
        Some(a) => a,
        None => fallback_icon(),
    }
}

/// The button of a window row.
pub open spec fn window_item(r: WindowRow) -> ItemView {
    ItemView::Window(r.id, button_icon(r), r.title, r.is_focused, r.app_id)
}

/// The icons of the first `n` pinned applications that have no open window.
pub open spec fn pinned_items(v: ModelView, n: int) -> Seq<ItemView>
    decreases n,
{
    if n <= 0 {
        Seq::empty()
    } else {
        let prev = pinned_items(v, n - 1);
        let a = v.pinned[n - 1];
        if app_is_open(v.windows, a) {
            prev
        } else {
            prev.push(ItemView::Pinned((n - 1) as usize, a, v.hovered == Some(a)))
        }
    }
}

/// One of the first `n` workspace groups has windows.
pub open spec fn any_windows(d: Seq<WorkspaceRow>, n: int) -> bool {
    exists|i: int| 0 <= i < n && #[trigger] d[i].windows.len() > 0
}

/// The items of the first `n` workspace groups: each group with windows gets a
/// divider (except the very first when no pinned icon precedes it and names are
/// shown), its label when names are shown, and its window buttons.
pub open spec fn workspace_items(d: Seq<WorkspaceRow>, n: int, has_pinned: bool, show: bool) -> Seq<ItemView>
    decreases n,
{
    if n <= 0 {
        Seq::empty()
    } else {
        let prev = workspace_items(d, n - 1, has_pinned, show);
        let w = d[n - 1];
        if w.windows.len() == 0 {
            prev
        } else {
            let divider = if any_windows(d, n - 1) || has_pinned || !show {
                seq![ItemView::Divider]
            } else {
                Seq::empty()
            };
            let label = if show {
                seq![ItemView::WorkspaceLabel(label_text(w))]
            } else {
                Seq::empty()
            };
            prev + divider + label + w.windows.map_values(|r: WindowRow| window_item(r))
        }
    }
}

/// The whole panel for a state.
pub open spec fn panel_spec(v: ModelView) -> Seq<ItemView> {
    let pins = pinned_items(v, v.pinned.len() as int);
    let d = v.display;
    if !any_windows(d, d.len() as int) && pins.len() == 0 {
        seq![ItemView::Placeholder]
    } else {
        let end = if any_windows(d, d.len() as int) || pins.len() > 0 {
            seq![ItemView::EndDivider]
        } else {
            Seq::empty()
        };
        seq![ItemView::StartDivider] + pins + workspace_items(d, d.len() as int, pins.len() > 0, v.show_workspace_name)
            + end
    }
}

/// Some pinned application has no open window exactly when it gets an icon.
proof fn lemma_pinned_items_empty(v: ModelView, n: int)
    requires
        0 <= n <= v.pinned.len(),
    ensures
        pinned_items(v, n).len() == 0 <==> forall|i: int| 0 <= i < n ==> app_is_open(v.windows, #[trigger] v.pinned[i]),
    decreases n,
{
    if n > 0 {
        lemma_pinned_items_empty(v, n - 1);
    }
}

fn item_of_row(w: &WindowView) -> (res: PanelItem)
    ensures
        res@ == window_item(w@),
{
    let icon = match &w.app_id {
        Some(a) => a.clone(),
        None => owned("preferences-system-windows-symbolic"),
    };
    PanelItem::Window { id: w.id, icon, title: w.title.clone(), focused: w.is_focused, app_id: clone_opt_text(&w.app_id) }
}

/// The panel content for the model's state.
pub fn panel_items(model: &AppModel) -> (res: Vec<PanelItem>)
    ensures
        items_view(res@) == panel_spec(model@),
{
    let ghost v = model@;
    let pinned = model.pinned();
    let display = model.display();
    let hovered = model.hovered_pinned();
    let show = model.show_workspace_name();
    let mut pins: Vec<PanelItem> = Vec::new();
    let mut i: usize = 0;
    proof {
        assert(items_view(pins@) =~= pinned_items(v, 0));
    }
    while i < pinned.len()
        invariant
            i <= pinned@.len(),
            v == model@,
            texts_view(pinned@) == v.pinned,
            opt_text(hovered) == v.hovered,
            items_view(pins@) == pinned_items(v, i as int),
        decreases pinned@.len() - i,
    {
        let a = &pinned[i];
        let ghost av = a@;
        assert(v.pinned[i as int] == av);
        if !model.is_app_open(a.as_str()) {
            let is_hovered = match &hovered {
                Some(h) => {
                    let hc = chars_of(h.as_str());
                    let ac = chars_of(a.as_str());
                    chars_eq(hc.as_slice(), ac.as_slice())
                },
                None => false,
            };
            let ghost before = items_view(pins@);
            pins.push(PanelItem::Pinned { index: i, app_id: a.clone(), hovered: is_hovered });
            proof {
                assert(items_view(pins@) =~= before.push(ItemView::Pinned(i, av, v.hovered == Some(av))));
            }
        }
        i += 1;
    }
    let has_pinned = pins.len() > 0;
    let ghost d = v.display;
    let mut groups: Vec<PanelItem> = Vec::new();
    let mut any = false;
    let mut k: usize = 0;
    proof {
        assert(items_view(groups@) =~= workspace_items(d, 0, has_pinned, show));
    }
    while k < display.len()
        invariant
            k <= display@.len(),
            v == model@,
            rows_of(display@) == d,
            show == v.show_workspace_name,
            has_pinned == (pinned_items(v, v.pinned.len() as int).len() > 0),
            any == any_windows(d, k as int),
            items_view(groups@) == workspace_items(d, k as int, has_pinned, show),
        decreases display@.len() - k,
    {
        let ws = &display[k];
        let ghost w = d[k as int];
        assert(w == ws@);
        let ghost before = items_view(groups@);
        if ws.windows.len() > 0 {
            let ghost mid0 = items_view(groups@);
            if any || has_pinned || !show {
                groups.push(PanelItem::Divider);
            }
            let ghost mid1 = items_view(groups@);
            if show {
                let text = match &ws.name {
                    Some(n) => n.clone(),
                    None => u8_to_decimal(ws.idx),
                };
                groups.push(PanelItem::WorkspaceLabel { text });
            }
            let ghost mid2 = items_view(groups@);
            let mut j: usize = 0;
            while j < ws.windows.len()
                invariant
                    j <= ws.windows@.len(),
                    items_view(groups@) == mid2 + ws.windows@.take(j as int).map_values(|r: WindowView| window_item(r@)),
                decreases ws.windows@.len() - j,
            {
                let ghost g0 = items_view(groups@);
                groups.push(item_of_row(&ws.windows[j]));
                proof {
                    assert(ws.windows@.take(j as int + 1).map_values(|r: WindowView| window_item(r@)) =~= ws.windows@.take(
                        j as int,
                    ).map_values(|r: WindowView| window_item(r@)).push(window_item(ws.windows@[j as int]@)));
                    assert(items_view(groups@) =~= g0.push(window_item(ws.windows@[j as int]@)));
                }
                j += 1;
            }
            proof {
                assert(ws.windows@.take(ws.windows@.len() as int) =~= ws.windows@);
                assert(ws.windows@.map_values(|r: WindowView| window_item(r@)) =~= w.windows.map_values(
                    |r: WindowRow| window_item(r),
                ));
                let divider = if any_windows(d, k as int) || has_pinned || !show {
                    seq![ItemView::Divider]
                } else {
                    Seq::empty()
                };
                let label = if show {
                    seq![ItemView::WorkspaceLabel(label_text(w))]
                } else {
                    Seq::empty()
                };
                assert(mid1 =~= mid0 + divider);
                assert(mid2 =~= mid0 + divider + label);
                assert(items_view(groups@) =~= before + divider + label + w.windows.map_values(|r: WindowRow| window_item(r)));
                assert(d[k as int].windows.len() > 0);
                assert(any_windows(d, k as int + 1));
            }
            any = true;
        } else {
            proof {
                if any_windows(d, k as int + 1) {
                    let i0 = choose|i0: int| 0 <= i0 < k + 1 && #[trigger] d[i0].windows.len() > 0;
                    assert(i0 != k);
                }
            }
        }
        k += 1;
    }
    let mut res: Vec<PanelItem> = Vec::new();
    proof {
        lemma_pinned_items_empty(v, v.pinned.len() as int);
    }
    if !any && !has_pinned {
        res.push(PanelItem::Placeholder);
        proof {
            assert(items_view(res@) =~= seq![ItemView::Placeholder]);
        }
    } else {
        res.push(PanelItem::StartDivider);
        let ghost p = items_view(pins@);
        let ghost g = items_view(groups@);
        res.append(&mut pins);
        res.append(&mut groups);
        if any || has_pinned {
            res.push(PanelItem::EndDivider);
        }
        proof {
            assert(items_view(res@) =~= seq![ItemView::StartDivider] + p + g + seq![ItemView::EndDivider]);
        }
    }
    res
}

/// The icon size for the panel: the larger side of the size the panel suggests, or,
/// when that is zero, the size named by the panel-size setting.
pub open spec fn icon_size_spec(w: u16, h: u16, panel_size: Option<Seq<char>>) -> u16 {
    let m = if w >= h { w } else { h };
    if m != 0 {
        m
    } else {
        match panel_size {
            Some(s) => if s == "XS"@ {
                16
            } else if s == "S"@ {
                20
            } else if s == "M"@ {
                24
            } else if s == "L"@ {
                32
            } else if s == "XL"@ {
                48
            } else {
                24
            },
            None => 24,
        }
    }
}

/// The icon size for the panel.
pub fn panel_icon_size(w: u16, h: u16, panel_size: Option<&str>) -> (res: u16)
    ensures
        res == icon_size_spec(w, h, match panel_size {
            Some(s) => Some(s@),
            None => None,
        }),
{
    let m = if w >= h { w } else { h };
    if m != 0 {
        return m;
    }
    match panel_size {
        Some(s) => {
            if crate::text::text_eq(s, "XS") {
                16
            } else if crate::text::text_eq(s, "S") {
                20
            } else if crate::text::text_eq(s, "M") {
                24
            } else if crate::text::text_eq(s, "L") {
                32
            } else if crate::text::text_eq(s, "XL") {
                48
            } else {
                24
            }
        },
        None => 24,
    }
}

/// The tooltip of a pinned application: the name its desktop file gives, else its id.
pub fn pinned_tooltip(app_id: &str, desktop_name: Option<String>) -> (res: String)
    ensures
        res@ == match desktop_name {
            Some(n) => n@,
            None => app_id@,
        },
{
    match desktop_name {
        Some(n) => n,
        None => owned(app_id),
    }
}

} // verus!
