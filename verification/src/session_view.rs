use vstd::prelude::*;

use crate::layout::{
    copy_layout, docked_split, docked_split_exec, has_leaf, lemma_replace_parent, pair, parent_orientation, lemma_docked_split_leaves, lemma_pair_leaves, leaves, leaves_of, lemma_remove_leaf, lemma_replace_leaf,
    lemma_swap_leaves, remove_leaf, lemma_remove_keeps_rest, lemma_remove_lifts_sibling, lemma_replace_keeps_rest, orientation_at, pane_at, parent_path, remove_leaf_exec, replace_leaf, replace_leaf_exec, swap_leaves, swap_leaves_exec,
    LayoutNode,
};
use crate::terminal_pane::{
    drop_indicator_layout_spec, zoomed_in, zoomed_out, DropIndicatorLayout, ExitReaction, PaneView, TerminalPane,
    ZOOM_NORMAL,
};
use crate::types::{
    default_app_config, default_profile, AppConfig, DockPosition, ExitActionPreference, PaneId, PaneTitleStyle, Profile,
    SplitOrientation,
};

verus! {

/// What came of a request to dock one pane onto another of this session.
#[derive(Clone, Copy, Debug, PartialEq, Eq, Structural)]
pub enum DockOutcome {
    /// The pane moved and became the active one.
    Docked,
    /// The request named the same pane twice or a target this session does not have.
    Refused,
    /// The dragged pane belongs to another session: it has to be transferred.
    FromOtherSession,
}

/// What a pane asks of the window that holds its session.
#[derive(Clone, Copy, Debug, PartialEq, Eq, Structural)]
pub enum SessionAction {
    Split(PaneId, SplitOrientation),
    Close(PaneId),
    Focus(PaneId),
}

/// Whether pane title bars are shown, for a title style, a number of panes and the
/// setting that shows the bar of a lone pane.
pub open spec fn pane_header_visible_spec(style: PaneTitleStyle, count: int, show_when_single: bool) -> bool {
    match style {
        PaneTitleStyle::Hidden => false,
        PaneTitleStyle::Normal => if count <= 1 {
            show_when_single
        } else {
            true
        },
    }
}

/// Whether pane title bars are shown, for a title style, a number of panes and the
/// setting that shows the bar of a lone pane.
pub fn pane_header_visible(style: PaneTitleStyle, count: usize, show_when_single: bool) -> (b: bool)
    ensures
        b == pane_header_visible_spec(style, count as int, show_when_single),
{
    match style {
        PaneTitleStyle::Hidden => false,
        PaneTitleStyle::Normal => if count <= 1 {
            show_when_single
        } else {
            true
        },
    }
}

/// The longest time, in milliseconds, between two presses on a split handle that count
/// as a double click.
pub const DOUBLE_CLICK_MS: u64 = 450;

/// Whether a press on a split handle at `now` (in milliseconds) completes a double click
/// with the previous press, if there was one: less than `DOUBLE_CLICK_MS` apart, a clock
/// that went back counting as no time.
pub fn separator_double_click(previous: Option<u64>, now: u64) -> (b: bool)
    ensures
        b == (match previous {
            Some(p) => (if now >= p {
                now - p
            } else {
                0
            }) < DOUBLE_CLICK_MS,
            None => false,
        }),
{
    match previous {
        Some(p) => {
            let elapsed: u64 = if now >= p {
                now - p
            } else {
                0
            };
            elapsed < DOUBLE_CLICK_MS
        },
        None => false,
    }
}

/// The views of a sequence of panes.
pub open spec fn pane_views(v: Seq<TerminalPane>) -> Seq<PaneView> {
    v.map_values(|p: TerminalPane| p@)
}

/// The identifiers of a sequence of pane views.
pub open spec fn ids_of(panes: Seq<PaneView>) -> Seq<PaneId> {
    panes.map_values(|p: PaneView| p.pane_id)
}

/// The panes with the active flag set on the pane `active` names and cleared elsewhere.
pub open spec fn flag_active(panes: Seq<PaneView>, active: Option<PaneId>) -> Seq<PaneView> {
    panes.map_values(|p: PaneView| PaneView { active: active == Some(p.pane_id), ..p })
}

/// The panes with their title bars shown or hidden.
pub open spec fn with_headers(panes: Seq<PaneView>, visible: bool) -> Seq<PaneView> {
    panes.map_values(|p: PaneView| PaneView { header_visible: visible, ..p })
}

/// A focus history without `id`.
pub open spec fn history_without(history: Seq<PaneId>, id: PaneId) -> Seq<PaneId> {
    if history.contains(id) {
        history.remove(history.index_of(id))
    } else {
        history
    }
}

/// A focus history after `id` is focused: it becomes the most recent entry.
pub open spec fn history_focus(history: Seq<PaneId>, id: PaneId) -> Seq<PaneId> {
    history_without(history, id).push(id)
}

/// Removing an entry from a history without repeats leaves a history without repeats
/// that holds the other entries.
pub proof fn lemma_history_without(history: Seq<PaneId>, id: PaneId)
    requires
        history.no_duplicates(),
    ensures
        history_without(history, id).no_duplicates(),
        forall|x: PaneId| #[trigger] history_without(history, id).contains(x) <==> (history.contains(x) && x != id),
        history_without(history, id).len() == (if history.contains(id) {
            history.len() - 1
        } else {
            history.len() as int
        }),
{
    if history.contains(id) {
        let k = history.index_of(id);
        let r = history.remove(k);
        assert(history[k] == id);
        assert(r.len() == history.len() - 1);
        assert forall|i: int| 0 <= i < r.len() implies #[trigger] r[i] == (if i < k {
            history[i]
        } else {
            history[i + 1]
        }) by {}
        assert forall|x: PaneId| #[trigger] r.contains(x) <==> (history.contains(x) && x != id) by {
            if r.contains(x) {
                let i = choose|i: int| 0 <= i < r.len() && r[i] == x;
                if i < k {
                    assert(history[i] == x);
                } else {
                    assert(history[i + 1] == x);
                }
            }
            if history.contains(x) && x != id {
                let i = choose|i: int| 0 <= i < history.len() && history[i] == x;
                assert(i != k);
                if i < k {
                    assert(r[i] == x);
                } else {
                    assert(r[i - 1] == x);
                }
            }
        }
        assert forall|i: int, j: int| 0 <= i < r.len() && 0 <= j < r.len() && i != j implies r[i] != r[j] by {
            let a = if i < k { i } else { i + 1 };
            let b = if j < k { j } else { j + 1 };
            assert(r[i] == history[a]);
            assert(r[j] == history[b]);
        }
    }
}

/// Focusing a pane keeps a history without repeats and makes that pane the most recent.
pub proof fn lemma_history_focus(history: Seq<PaneId>, id: PaneId)
    requires
        history.no_duplicates(),
    ensures
        history_focus(history, id).no_duplicates(),
        forall|x: PaneId| #[trigger] history_focus(history, id).contains(x) <==> (history.contains(x) || x == id),
        history_focus(history, id).len() == (if history.contains(id) {
            history.len() as int
        } else {
            history.len() + 1int
        }),
        history_focus(history, id).last() == id,
{
    lemma_history_without(history, id);
    let w = history_without(history, id);
    let r = w.push(id);
    assert forall|x: PaneId| #[trigger] r.contains(x) <==> (history.contains(x) || x == id) by {
        if r.contains(x) {
            let i = choose|i: int| 0 <= i < r.len() && r[i] == x;
            if i < w.len() {
                assert(w[i] == x);
                assert(w.contains(x));
            }
        }
        if history.contains(x) && x != id {
            assert(w.contains(x));
            let i = choose|i: int| 0 <= i < w.len() && w[i] == x;
            assert(r[i] == x);
        }
        if x == id {
            assert(r[w.len() as int] == x);
        }
    }
    assert forall|i: int, j: int| 0 <= i < r.len() && 0 <= j < r.len() && i != j implies r[i] != r[j] by {
        if i < w.len() && j < w.len() {
            assert(r[i] == w[i] && r[j] == w[j]);
        } else if i < w.len() {
            assert(r[i] == w[i]);
            assert(w.contains(w[i]));
        } else if j < w.len() {
            assert(r[j] == w[j]);
            assert(w.contains(w[j]));
        }
    }
}

/// The panes with updated flags or title bars keep their identifiers.
pub proof fn lemma_ids_kept(panes: Seq<PaneView>, active: Option<PaneId>, visible: bool)
    ensures
        ids_of(flag_active(panes, active)) == ids_of(panes),
        ids_of(with_headers(panes, visible)) == ids_of(panes),
{
    assert(ids_of(flag_active(panes, active)) =~= ids_of(panes));
    assert(ids_of(with_headers(panes, visible)) =~= ids_of(panes));
}

/// The most recently focused pane of a history.
pub open spec fn most_recent(history: Seq<PaneId>) -> Option<PaneId> {
    if history.len() == 0 {
        None
    } else {
        Some(history.last())
    }
}

/// A pane as the session creates it: normal font scale, synchronised input on, titled
/// "Terminal", no child yet, the given profile, title bar shown, not active.
pub open spec fn fresh_pane(id: PaneId, profile: Profile) -> PaneView {
    PaneView {
        pane_id: id,
        font_scale: ZOOM_NORMAL,
        sync_enabled: true,
        closing: false,
        raw_title: "Terminal"@,
        child_pid: None,
        profile: profile,
        header_visible: true,
        drop_indicator: None,
        active: false,
    }
}

/// Removing a pane removes its identifier at the same position.
pub proof fn lemma_ids_remove(panes: Seq<PaneView>, k: int)
    requires
        0 <= k < panes.len(),
    ensures
        ids_of(panes.remove(k)) == ids_of(panes).remove(k),
{
    assert(ids_of(panes.remove(k)) =~= ids_of(panes).remove(k));
}

/// Inserting a pane inserts its identifier at the same position.
pub proof fn lemma_ids_insert(panes: Seq<PaneView>, k: int, p: PaneView)
    requires
        0 <= k <= panes.len(),
    ensures
        ids_of(panes.insert(k, p)) == ids_of(panes).insert(k, p.pane_id),
{
    assert(ids_of(panes.insert(k, p)) =~= ids_of(panes).insert(k, p.pane_id));
}

/// A history that does not hold `id` is left as it is by removing `id`.
pub proof fn lemma_history_without_absent(history: Seq<PaneId>, id: PaneId)
    requires
        !history.contains(id),
    ensures
        history_without(history, id) == history,
{
}

/// A state whose panes and history are those of a consistent state less one pane is
/// consistent.
pub proof fn lemma_wf_after_remove(s: SessionState, t: SessionState, id: PaneId)
    requires
        s.wf(),
        s.has(id),
        t.ids() == history_without(s.ids(), id),
        t.history == history_without(s.history, id),
        t.next_id == s.next_id,
        t.panes.len() > 0 ==> leaves_of(t.layout) == t.ids(),
    ensures
        t.wf(),
{
    lemma_history_without(s.ids(), id);
    lemma_history_without(s.history, id);
    assert forall|i: int| 0 <= i < t.panes.len() implies (#[trigger] t.panes[i]).pane_id.0 < t.next_id by {
        assert(t.ids()[i] == t.panes[i].pane_id);
        assert(t.ids().contains(t.ids()[i]));
        assert(s.ids().contains(t.panes[i].pane_id));
        let j = choose|j: int| 0 <= j < s.ids().len() && s.ids()[j] == t.panes[i].pane_id;
        assert(s.panes[j].pane_id == t.panes[i].pane_id);
    }
    if t.panes.len() > 0 {
        assert(s.history.contains(id)) by {
            let k = choose|k: int| 0 <= k < s.ids().len() && s.ids()[k] == id;
            assert(s.history.contains(s.ids()[k]));
        }
        assert(t.ids().len() == t.panes.len());
        assert forall|j: int| 0 <= j < t.history.len() implies t.has(#[trigger] t.history[j]) by {
            assert(t.history.contains(t.history[j]));
            assert(s.history.contains(t.history[j]));
            let m = choose|m: int| 0 <= m < s.history.len() && s.history[m] == t.history[j];
            assert(s.has(s.history[m]));
        }
        assert forall|i: int| 0 <= i < t.panes.len() implies t.history.contains(#[trigger] t.ids()[i]) by {
            assert(t.ids().contains(t.ids()[i]));
            assert(s.ids().contains(t.ids()[i]));
            let m = choose|m: int| 0 <= m < s.ids().len() && s.ids()[m] == t.ids()[i];
            assert(s.history.contains(s.ids()[m]));
        }
    }
}

/// A consistent state with a new pane, whose identifier it does not have and is below the
/// next one handed out, inserted into the layout and pushed onto the focus history, is
/// consistent.
pub proof fn lemma_wf_after_insert(s: SessionState, t: SessionState, k: int, new_id: PaneId)
    requires
        s.wf(),
        s.panes.len() > 0,
        !s.has(new_id),
        0 <= k <= s.panes.len(),
        t.ids() == s.ids().insert(k, new_id),
        t.history == s.history.push(new_id),
        s.next_id <= t.next_id,
        new_id.0 < t.next_id,
        t.panes.len() > 0 ==> leaves_of(t.layout) == t.ids(),
    ensures
        t.wf(),
{
    let ids = s.ids();
    let tids = t.ids();
    ids.insert_ensures(k, new_id);
    assert(!s.history.contains(new_id)) by {
        if s.history.contains(new_id) {
            let j = choose|j: int| 0 <= j < s.history.len() && s.history[j] == new_id;
            assert(s.has(s.history[j]));
        }
    }
    assert forall|i: int| 0 <= i < tids.len() implies #[trigger] tids[i] == (if i < k {
        ids[i]
    } else if i == k {
        new_id
    } else {
        ids[i - 1]
    }) by {}
    assert forall|i: int, j: int| 0 <= i < tids.len() && 0 <= j < tids.len() && i != j implies tids[i] != tids[j] by {
        if i != k && j != k {
            let a = if i < k { i } else { i - 1 };
            let b = if j < k { j } else { j - 1 };
            assert(tids[i] == ids[a] && tids[j] == ids[b]);
        } else if i == k {
            let b = if j < k { j } else { j - 1 };
            assert(tids[j] == ids[b]);
            assert(ids.contains(ids[b]));
        } else {
            let a = if i < k { i } else { i - 1 };
            assert(tids[i] == ids[a]);
            assert(ids.contains(ids[a]));
        }
    }
    assert forall|i: int| 0 <= i < t.panes.len() implies (#[trigger] t.panes[i]).pane_id.0 < t.next_id by {
        assert(tids[i] == t.panes[i].pane_id);
        if i < k {
            assert(s.panes[i].pane_id == ids[i]);
        } else if i > k {
            assert(s.panes[i - 1].pane_id == ids[i - 1]);
        }
    }
    let h = t.history;
    assert forall|i: int, j: int| 0 <= i < h.len() && 0 <= j < h.len() && i != j implies h[i] != h[j] by {
        if i < s.history.len() && j < s.history.len() {
        } else if i < s.history.len() {
            assert(s.history.contains(s.history[i]));
        } else {
            assert(s.history.contains(s.history[j]));
        }
    }
    assert forall|j: int| 0 <= j < h.len() implies t.has(#[trigger] h[j]) by {
        if j < s.history.len() {
            assert(s.has(s.history[j]));
            let m = choose|m: int| 0 <= m < ids.len() && ids[m] == s.history[j];
            if m < k {
                assert(tids[m] == h[j]);
            } else {
                assert(tids[m + 1] == h[j]);
            }
        } else {
            assert(tids[k] == h[j]);
        }
    }
    assert forall|i: int| 0 <= i < t.panes.len() implies h.contains(#[trigger] tids[i]) by {
        if i == k {
            assert(h[s.history.len() as int] == new_id);
        } else {
            let a = if i < k { i } else { i - 1 };
            assert(tids[i] == ids[a]);
            assert(s.history.contains(ids[a]));
            let m = choose|m: int| 0 <= m < s.history.len() && s.history[m] == ids[a];
            assert(h[m] == ids[a]);
        }
    }
}

/// Inserting an absent identifier into a sequence without repeats leaves one without
/// repeats that holds the old entries and the new one.
pub proof fn lemma_insert_absent(ids: Seq<PaneId>, k: int, x: PaneId)
    requires
        ids.no_duplicates(),
        !ids.contains(x),
        0 <= k <= ids.len(),
    ensures
        ids.insert(k, x).no_duplicates(),
        ids.insert(k, x).len() == ids.len() + 1,
        forall|y: PaneId| #[trigger] ids.insert(k, x).contains(y) <==> (ids.contains(y) || y == x),
{
    let t = ids.insert(k, x);
    ids.insert_ensures(k, x);
    assert forall|i: int| 0 <= i < t.len() implies #[trigger] t[i] == (if i < k {
        ids[i]
    } else if i == k {
        x
    } else {
        ids[i - 1]
    }) by {}
    assert forall|i: int, j: int| 0 <= i < t.len() && 0 <= j < t.len() && i != j implies t[i] != t[j] by {
        if i != k && j != k {
            let a = if i < k { i } else { i - 1 };
            let b = if j < k { j } else { j - 1 };
            assert(t[i] == ids[a] && t[j] == ids[b]);
        } else if i == k {
            let b = if j < k { j } else { j - 1 };
            assert(ids.contains(ids[b]));
        } else {
            let a = if i < k { i } else { i - 1 };
            assert(ids.contains(ids[a]));
        }
    }
    assert forall|y: PaneId| #[trigger] t.contains(y) <==> (ids.contains(y) || y == x) by {
        if t.contains(y) {
            let i = choose|i: int| 0 <= i < t.len() && t[i] == y;
            if i < k {
                assert(ids[i] == y);
            } else if i > k {
                assert(ids[i - 1] == y);
            }
        }
        if ids.contains(y) {
            let i = choose|i: int| 0 <= i < ids.len() && ids[i] == y;
            if i < k {
                assert(t[i] == y);
            } else {
                assert(t[i + 1] == y);
            }
        }
        if y == x {
            assert(t[k] == y);
        }
    }
}

/// Exchanging two entries of a sequence without repeats keeps its entries and leaves
/// it without repeats.
pub proof fn lemma_swap_entries(ids: Seq<PaneId>, i: int, j: int)
    requires
        ids.no_duplicates(),
        0 <= i < ids.len(),
        0 <= j < ids.len(),
    ensures
        ids.update(i, ids[j]).update(j, ids[i]).no_duplicates(),
        ids.update(i, ids[j]).update(j, ids[i]).len() == ids.len(),
        forall|y: PaneId| #[trigger] ids.update(i, ids[j]).update(j, ids[i]).contains(y) <==> ids.contains(y),
{
    let t = ids.update(i, ids[j]).update(j, ids[i]);
    let pos = |a: int| if a == i { j } else if a == j { i } else { a };
    assert forall|a: int| 0 <= a < t.len() implies #[trigger] t[a] == ids[pos(a)] by {}
    assert forall|a: int, b: int| 0 <= a < t.len() && 0 <= b < t.len() && a != b implies t[a] != t[b] by {
        assert(t[a] == ids[pos(a)] && t[b] == ids[pos(b)]);
    }
    assert forall|y: PaneId| #[trigger] t.contains(y) <==> ids.contains(y) by {
        if t.contains(y) {
            let a = choose|a: int| 0 <= a < t.len() && t[a] == y;
            assert(ids[pos(a)] == y);
        }
        if ids.contains(y) {
            let a = choose|a: int| 0 <= a < ids.len() && ids[a] == y;
            assert(t[pos(a)] == y);
        }
    }
}

/// A state whose identifiers and history hold the same entries as those of a consistent
/// state, each without repeats and as many, is consistent.
pub proof fn lemma_wf_permuted(s: SessionState, t: SessionState)
    requires
        s.wf(),
        t.ids().no_duplicates(),
        t.ids().len() == s.ids().len(),
        forall|y: PaneId| #[trigger] t.ids().contains(y) <==> s.ids().contains(y),
        t.history.no_duplicates(),
        t.history.len() == s.history.len(),
        forall|y: PaneId| #[trigger] t.history.contains(y) <==> s.history.contains(y),
        t.next_id == s.next_id,
        t.panes.len() > 0 ==> leaves_of(t.layout) == t.ids(),
    ensures
        t.wf(),
{
    assert forall|i: int| 0 <= i < t.panes.len() implies (#[trigger] t.panes[i]).pane_id.0 < t.next_id by {
        assert(t.ids()[i] == t.panes[i].pane_id);
        assert(t.ids().contains(t.ids()[i]));
        let m = choose|m: int| 0 <= m < s.ids().len() && s.ids()[m] == t.ids()[i];
        assert(s.panes[m].pane_id == t.ids()[i]);
    }
    if t.panes.len() > 0 {
        assert forall|j: int| 0 <= j < t.history.len() implies t.has(#[trigger] t.history[j]) by {
            assert(t.history.contains(t.history[j]));
            let m = choose|m: int| 0 <= m < s.history.len() && s.history[m] == t.history[j];
            assert(s.has(s.history[m]));
        }
        assert forall|i: int| 0 <= i < t.panes.len() implies t.history.contains(#[trigger] t.ids()[i]) by {
            assert(t.ids().contains(t.ids()[i]));
            let m = choose|m: int| 0 <= m < s.ids().len() && s.ids()[m] == t.ids()[i];
            assert(s.history.contains(s.ids()[m]));
        }
    }
}

/// The panes that input typed in `sender` is copied to: the other panes with input
/// synchronisation on, in layout order.
pub open spec fn broadcast_targets(panes: Seq<PaneView>, sender: PaneId) -> Seq<PaneId>
    decreases panes.len(),
{
    if panes.len() == 0 {
        Seq::empty()
    } else {
        let rest = broadcast_targets(panes.drop_last(), sender);
        let p = panes.last();
        if p.pane_id != sender && p.sync_enabled {
            rest.push(p.pane_id)
        } else {
            rest
        }
    }
}

/// Input is copied to exactly the panes other than the sender that have input
/// synchronisation on.
pub proof fn lemma_broadcast_targets(panes: Seq<PaneView>, sender: PaneId)
    ensures
        forall|x: PaneId| #[trigger] broadcast_targets(panes, sender).contains(x) <==> (x != sender && exists|i: int|
            0 <= i < panes.len() && panes[i].pane_id == x && panes[i].sync_enabled),
    decreases panes.len(),
{
    if panes.len() > 0 {
        let init = panes.drop_last();
        lemma_broadcast_targets(init, sender);
        let rest = broadcast_targets(init, sender);
        let t = broadcast_targets(panes, sender);
        let last = panes.len() - 1;
        assert forall|x: PaneId| #[trigger] t.contains(x) <==> (x != sender && exists|i: int|
            0 <= i < panes.len() && panes[i].pane_id == x && panes[i].sync_enabled) by {
            if t.contains(x) {
                let k = choose|k: int| 0 <= k < t.len() && t[k] == x;
                if k < rest.len() {
                    assert(rest[k] == x);
                    assert(rest.contains(x));
                    let i = choose|i: int| 0 <= i < init.len() && init[i].pane_id == x && init[i].sync_enabled;
                    assert(panes[i] == init[i]);
                } else {
                    assert(panes[last].pane_id == x);
                }
            }
            if x != sender && exists|i: int| 0 <= i < panes.len() && panes[i].pane_id == x && panes[i].sync_enabled {
                let i = choose|i: int| 0 <= i < panes.len() && panes[i].pane_id == x && panes[i].sync_enabled;
                if i < last {
                    assert(init[i] == panes[i]);
                    assert(rest.contains(x));
                    let k = choose|k: int| 0 <= k < rest.len() && rest[k] == x;
                    assert(t[k] == x);
                } else {
                    assert(t[rest.len() as int] == x);
                }
            }
        }
    }
}

/// How many of the identifiers lie below `id`.
pub open spec fn count_below(ids: Seq<PaneId>, id: PaneId) -> nat
    decreases ids.len(),
{
    if ids.len() == 0 {
        0
    } else {
        count_below(ids.drop_last(), id) + if ids.last().0 < id.0 {
            1nat
        } else {
            0nat
        }
    }
}

/// How many of the identifiers lie below `id` is at most how many there are.
pub proof fn lemma_count_below_len(ids: Seq<PaneId>, id: PaneId)
    ensures
        count_below(ids, id) <= ids.len(),
    decreases ids.len(),
{
    if ids.len() > 0 {
        lemma_count_below_len(ids.drop_last(), id);
    }
}

/// Replacing a pane with one of the same identifier keeps the identifiers.
pub proof fn lemma_ids_update(panes: Seq<PaneView>, k: int, p: PaneView)
    requires
        0 <= k < panes.len(),
        p.pane_id == panes[k].pane_id,
    ensures
        ids_of(panes.update(k, p)) == ids_of(panes),
{
    assert(ids_of(panes.update(k, p)) =~= ids_of(panes));
}

/// Replacing a pane of a consistent state with one of the same identifier keeps it
/// consistent.
pub proof fn lemma_update_wf(s: SessionState, t: SessionState, i: int, p: PaneView)
    requires
        s.wf(),
        0 <= i < s.panes.len(),
        p.pane_id == s.panes[i].pane_id,
        t == (SessionState { panes: s.panes.update(i, p), ..s }),
    ensures
        t.wf(),
{
    lemma_ids_update(s.panes, i, p);
    assert forall|k: int| 0 <= k < t.panes.len() implies (#[trigger] t.panes[k]).pane_id.0 < t.next_id by {
        assert(t.panes[k].pane_id == s.panes[k].pane_id);
    }
}

/// An identifier is not below itself, so fewer than all identifiers lie below one of them.
pub proof fn lemma_count_below_strict(ids: Seq<PaneId>, id: PaneId, k: int)
    requires
        0 <= k < ids.len(),
        ids[k] == id,
    ensures
        count_below(ids, id) < ids.len(),
    decreases ids.len(),
{
    if k == ids.len() - 1 {
        lemma_count_below_len(ids.drop_last(), id);
    } else {
        lemma_count_below_strict(ids.drop_last(), id, k);
    }
}

/// Closing a pane that is not the active one leaves the active pane as it was.
pub proof fn lemma_close_other_keeps_active(s: SessionState, id: PaneId)
    requires
        s.wf(),
        s.has(id),
        s.active() != Some(id),
    ensures
        s.after_close(id).active() == s.active(),
        s.after_close(id).panes.len() == s.panes.len() - 1,
{
    let h = s.history;
    assert(s.panes.len() > 0);
    assert(h.contains(id)) by {
        let k = choose|k: int| 0 <= k < s.ids().len() && s.ids()[k] == id;
        assert(h.contains(s.ids()[k]));
    }
    let k = h.index_of(id);
    assert(h[k] == id);
    assert(k != h.len() - 1);
    let r = h.remove(k);
    assert(r.last() == h.last());
}

/// Closing the active pane, when others remain, makes the pane focused just before it
/// the active one.
pub proof fn lemma_close_active_focuses_previous(s: SessionState)
    requires
        s.wf(),
        s.panes.len() > 1,
    ensures
        s.active() is Some,
        s.after_close(s.active()->0).active() == Some(s.history[s.history.len() - 2]),
        s.after_close(s.active()->0).panes.len() == s.panes.len() - 1,
{
    let h = s.history;
    let id = h.last();
    assert(h.contains(id)) by {
        assert(h[h.len() - 1] == id);
    }
    assert(s.has(id)) by {
        assert(s.has(h[h.len() - 1]));
    }
    let k = h.index_of(id);
    assert(k == h.len() - 1);
    let r = h.remove(k);
    assert(r.last() == h[h.len() - 2]);
}

/// Focusing a pane of the session makes it the active one and keeps every pane.
pub proof fn lemma_focus_makes_active(s: SessionState, id: PaneId)
    requires
        s.wf(),
        s.has(id),
    ensures
        (SessionState { panes: flag_active(s.panes, Some(id)), history: history_focus(s.history, id), ..s }).active()
            == Some(id),
        ids_of(flag_active(s.panes, Some(id))) == s.ids(),
{
    lemma_history_focus(s.history, id);
    lemma_ids_kept(s.panes, Some(id), true);
}

/// A split adds exactly one pane, the new active one, right after the split pane.
pub proof fn lemma_split_adds_active_pane(s: SessionState, target: PaneId, orientation: SplitOrientation)
    requires
        s.wf(),
        s.has(target),
        s.next_id < u64::MAX,
    ensures
        s.after_split(target, orientation).panes.len() == s.panes.len() + 1,
        s.after_split(target, orientation).active() == Some(PaneId(s.next_id)),
        s.after_split(target, orientation).ids() == s.ids().insert(s.index(target) + 1, PaneId(s.next_id)),
{
    let new_id = PaneId(s.next_id);
    let panes = s.panes.insert(s.index(target) + 1, fresh_pane(new_id, s.new_pane_profile));
    let hv = pane_header_visible_spec(s.pane_title_style, panes.len() as int, s.show_when_single);
    assert(s.ids().contains(target));
    assert(0 <= s.index(target) < s.panes.len());
    lemma_ids_insert(s.panes, s.index(target) + 1, fresh_pane(new_id, s.new_pane_profile));
    lemma_ids_kept(panes, Some(new_id), hv);
    lemma_ids_kept(with_headers(panes, hv), Some(new_id), hv);
}

/// Moving a pane from one session to another: the source loses exactly that pane and
/// the destination gains it, unchanged but for its flags, as its active pane.
pub proof fn lemma_transfer_moves_pane(src: SessionState, dst: SessionState, id: PaneId, target: PaneId, position: DockPosition)
    requires
        src.wf(),
        dst.wf(),
        src.has(id),
        !dst.has(id),
    ensures
        !src.without_pane(id).has(id),
        src.without_pane(id).panes.len() == src.panes.len() - 1,
        dst.after_adopt(src.panes[src.index(id)], target, position).has(id),
        dst.after_adopt(src.panes[src.index(id)], target, position).active() == Some(id),
        dst.after_adopt(src.panes[src.index(id)], target, position).panes.len() == dst.panes.len() + 1,
{
    let k = src.index(id);
    assert(src.ids().contains(id));
    assert(0 <= k < src.panes.len() && src.ids()[k] == id);
    let p = src.panes[k];
    lemma_ids_remove(src.panes, k);
    lemma_history_without(src.ids(), id);
    let rest = src.panes.remove(k);
    let h = history_without(src.history, id);
    lemma_ids_kept(rest, most_recent(h), true);
    assert(src.without_pane(id).ids() == history_without(src.ids(), id));
    let at = if dst.has(target) {
        match position {
            DockPosition::Top => dst.index(target),
            DockPosition::Left => dst.index(target),
            _ => dst.index(target) + 1,
        }
    } else {
        dst.panes.len() as int
    };
    if dst.has(target) {
        assert(dst.ids().contains(target));
    }
    assert(0 <= at <= dst.panes.len());
    let panes = dst.panes.insert(at, p);
    let hv = pane_header_visible_spec(dst.pane_title_style, panes.len() as int, dst.show_when_single);
    lemma_ids_insert(dst.panes, at, p);
    lemma_ids_kept(panes, Some(id), hv);
    lemma_ids_kept(with_headers(panes, hv), Some(id), hv);
    let t = dst.after_adopt(p, target, position);
    assert(t.ids()[at] == id);
}

/// Docking keeps the session's panes: the same identifiers, each once.
pub proof fn lemma_dock_keeps_panes(s: SessionState, src: PaneId, dest: PaneId, position: DockPosition)
    requires
        s.wf(),
        s.has(src),
        s.has(dest),
        src != dest,
    ensures
        s.after_dock(src, dest, position).panes.len() == s.panes.len(),
        s.after_dock(src, dest, position).ids().no_duplicates(),
        forall|x: PaneId| #[trigger] s.after_dock(src, dest, position).has(x) <==> s.has(x),
        s.after_dock(src, dest, position).active() == Some(src),
{
    let a = s.index(src);
    let b = s.index(dest);
    assert(s.ids().contains(src) && s.ids().contains(dest));
    assert(0 <= a < s.panes.len() && s.ids()[a] == src);
    assert(0 <= b < s.panes.len() && s.ids()[b] == dest);
    let d = s.docked(src, dest, position);
    match position {
        DockPosition::Center => {
            lemma_swap_entries(s.ids(), a, b);
            assert(ids_of(d) =~= s.ids().update(a, s.ids()[b]).update(b, s.ids()[a]));
        },
        _ => {
            let rest = s.panes.remove(a);
            lemma_ids_remove(s.panes, a);
            lemma_history_without(s.ids(), src);
            assert(ids_of(rest) == history_without(s.ids(), src));
            assert(ids_of(rest).contains(dest));
            let dd = ids_of(rest).index_of(dest);
            assert(0 <= dd < rest.len());
            let at = match position {
                DockPosition::Top => dd,
                DockPosition::Left => dd,
                _ => dd + 1,
            };
            lemma_ids_insert(rest, at, s.panes[a]);
            lemma_insert_absent(ids_of(rest), at, src);
        },
    }
    lemma_ids_kept(d, Some(src), s.headers_shown());
    lemma_ids_kept(with_headers(d, s.headers_shown()), Some(src), s.headers_shown());
    lemma_history_focus(s.history, src);
}

/// Whether every pane shows its title bar exactly as the title style, the number of panes
/// and the lone-pane setting ask.
pub open spec fn headers_consistent(s: SessionState) -> bool {
    forall|i: int| 0 <= i < s.panes.len() ==> (#[trigger] s.panes[i]).header_visible == s.headers_shown()
}

/// After a split, a close, a move into the session and a reset, every title bar is shown
/// exactly as the title style and the new number of panes ask.
pub proof fn lemma_headers_follow_pane_count(
    s: SessionState,
    id: PaneId,
    orientation: SplitOrientation,
    p: PaneView,
    target: PaneId,
    position: DockPosition,
)
    requires
        s.wf(),
    ensures
        s.has(id) && s.next_id < u64::MAX ==> headers_consistent(s.after_split(id, orientation)),
        s.has(id) ==> headers_consistent(s.after_close(id)),
        headers_consistent(s.after_adopt(p, target, position)),
        headers_consistent(s.after_reset()),
{
    if s.has(id) {
        assert(s.ids().contains(id));
        assert(0 <= s.index(id) < s.panes.len());
        let t = s.after_close(id);
        assert(t.panes.len() == s.panes.len() - 1);
        if s.next_id < u64::MAX {
            let u = s.after_split(id, orientation);
            assert(u.panes.len() == s.panes.len() + 1);
        }
    }
    let at = if s.has(target) {
        match position {
            DockPosition::Top => s.index(target),
            DockPosition::Left => s.index(target),
            _ => s.index(target) + 1,
        }
    } else {
        s.panes.len() as int
    };
    if s.has(target) {
        assert(s.ids().contains(target));
    }
    assert(0 <= at <= s.panes.len());
    let v = s.after_adopt(p, target, position);
    assert(v.panes.len() == s.panes.len() + 1);
}

/// Exchanging two entries by name is exchanging them by position, when nothing repeats.
pub proof fn lemma_swap_is_update(ids: Seq<PaneId>, i: int, j: int, a: PaneId, b: PaneId)
    requires
        ids.no_duplicates(),
        0 <= i < ids.len(),
        0 <= j < ids.len(),
        ids[i] == a,
        ids[j] == b,
    ensures
        ids.map_values(
            |y: PaneId|
                if y == a {
                    b
                } else if y == b {
                    a
                } else {
                    y
                },
        ) == ids.update(i, b).update(j, a),
{
    let m = ids.map_values(
        |y: PaneId|
            if y == a {
                b
            } else if y == b {
                a
            } else {
                y
            },
    );
    let u = ids.update(i, b).update(j, a);
    assert forall|k: int| 0 <= k < ids.len() implies m[k] == u[k] by {
        if k != i && k != j {
            assert(ids[k] != a && ids[k] != b);
        }
    }
    assert(m =~= u);
}

/// Where docking moves a pane in the arrangement: in its list of panes it leaves its place
/// and lands just before the target at the top and left, just after it otherwise.
pub proof fn lemma_dock_layout_leaves(s: SessionState, src: PaneId, dest: PaneId, position: DockPosition, a: int, d: int)
    requires
        s.wf(),
        position != DockPosition::Center,
        0 <= a < s.panes.len(),
        s.ids()[a] == src,
        s.ids().contains(dest),
        src != dest,
        0 <= d < s.ids().remove(a).len(),
        s.ids().remove(a)[d] == dest,
    ensures
        leaves_of(s.docked_layout(src, dest, position)) == s.ids().remove(a).insert(
            match position {
                DockPosition::Top => d,
                DockPosition::Left => d,
                _ => d + 1,
            },
            src,
        ),
{
    assert(leaves_of(s.layout) == s.ids());
    let lt = s.layout->0;
    lemma_remove_leaf(lt, src, a);
    lemma_history_without(s.ids(), src);
    assert(s.ids().contains(src));
    assert(s.ids().index_of(src) == a);
    assert(s.ids().remove(a) == history_without(s.ids(), src));
    assert(remove_leaf(lt, src) is Some);
    let r = remove_leaf(lt, src)->0;
    let node = docked_split(src, dest, position);
    lemma_replace_leaf(r, dest, node, d);
    lemma_docked_split_leaves(src, dest, position);
    let rest = s.ids().remove(a);
    let at = match position {
        DockPosition::Top => d,
        DockPosition::Left => d,
        _ => d + 1,
    };
    assert(leaves(replace_leaf(r, dest, node)) =~= rest.insert(at, src));
}

/// Where adopting puts a pane in the arrangement: in its list of panes at position `at`.
pub proof fn lemma_adopted_layout_leaves(s: SessionState, id: PaneId, target: PaneId, position: DockPosition, at: int)
    requires
        s.wf(),
        s.panes.len() > 0,
        s.has(target) ==> at == (match position {
            DockPosition::Top => s.index(target),
            DockPosition::Left => s.index(target),
            _ => s.index(target) + 1,
        }),
        !s.has(target) ==> at == s.panes.len(),
    ensures
        leaves_of(s.adopted_layout(id, target, position)) == s.ids().insert(at, id),
{
    assert(leaves_of(s.layout) == s.ids());
    let lt = s.layout->0;
    if s.has(target) {
        let k = s.index(target);
        assert(s.ids().contains(target));
        assert(0 <= k < s.ids().len() && s.ids()[k] == target);
        let node = docked_split(id, target, position);
        lemma_replace_leaf(lt, target, node, k);
        lemma_docked_split_leaves(id, target, position);
        assert(leaves(replace_leaf(lt, target, node)) =~= s.ids().insert(at, id));
    } else {
        let n = LayoutNode::Split {
            orientation: SplitOrientation::Horizontal,
            first: Box::new(lt),
            second: Box::new(LayoutNode::Leaf(id)),
        };
        assert(leaves(LayoutNode::Leaf(id)) == seq![id]);
        assert(leaves(n) == leaves(lt) + seq![id]);
        assert(leaves(n) =~= s.ids().insert(at, id));
    }
}

/// A split keeps its direction: the split pane and the new pane sit directly in a split of
/// the direction asked for, side by side for `Horizontal`, one above the other for
/// `Vertical`.
pub proof fn lemma_split_records_orientation(s: SessionState, target: PaneId, orientation: SplitOrientation)
    requires
        s.wf(),
        s.has(target),
        s.next_id < u64::MAX,
    ensures
        s.after_split(target, orientation).layout is Some,
        parent_orientation(s.after_split(target, orientation).layout->0, target) == Some(orientation),
        parent_orientation(s.after_split(target, orientation).layout->0, PaneId(s.next_id)) == Some(orientation),
{
    let new_id = PaneId(s.next_id);
    assert(leaves_of(s.layout) == s.ids());
    let lt = s.layout->0;
    assert(!s.has(new_id)) by {
        if s.has(new_id) {
            let m = choose|m: int| 0 <= m < s.ids().len() && s.ids()[m] == new_id;
            assert(s.panes[m].pane_id.0 < s.next_id);
        }
    }
    assert(split_node(target, new_id, orientation) == pair(orientation, target, new_id));
    lemma_replace_parent(lt, target, orientation, target, new_id);
}

/// Splitting a pane changes no other part of the session's arrangement: every split keeps
/// its place and its direction, and every other pane its place.
pub proof fn lemma_split_keeps_other_splits(
    s: SessionState,
    target: PaneId,
    orientation: SplitOrientation,
    path: Seq<bool>,
)
    requires
        s.wf(),
        s.has(target),
        s.next_id < u64::MAX,
    ensures
        s.layout is Some,
        s.after_split(target, orientation).layout is Some,
        orientation_at(s.layout->0, path) is Some ==> orientation_at(
            s.after_split(target, orientation).layout->0,
            path,
        ) == orientation_at(s.layout->0, path),
        (pane_at(s.layout->0, path) is Some && pane_at(s.layout->0, path) != Some(target)) ==> pane_at(
            s.after_split(target, orientation).layout->0,
            path,
        ) == pane_at(s.layout->0, path),
{
    assert(leaves_of(s.layout) == s.ids());
    lemma_replace_keeps_rest(s.layout->0, target, split_node(target, PaneId(s.next_id), orientation), path);
}

/// Closing one of several panes keeps every split and every pane that lies neither at nor
/// below the split that directly held it, in its place and, for a split, in its direction;
/// what lay on the other side of that split takes the split's place.
pub proof fn lemma_close_keeps_other_splits(s: SessionState, id: PaneId, path: Seq<bool>, side: bool, rest: Seq<bool>)
    requires
        s.wf(),
        s.has(id),
        s.panes.len() > 1,
    ensures
        s.layout is Some,
        s.after_close(id).layout is Some,
        !parent_path(s.layout->0, id).is_prefix_of(path) ==> orientation_at(s.after_close(id).layout->0, path)
            == orientation_at(s.layout->0, path),
        !parent_path(s.layout->0, id).is_prefix_of(path) ==> pane_at(s.after_close(id).layout->0, path) == pane_at(
            s.layout->0,
            path,
        ),
        orientation_at(s.layout->0, parent_path(s.layout->0, id).push(side) + rest) is Some ==> orientation_at(
            s.after_close(id).layout->0,
            parent_path(s.layout->0, id) + rest,
        ) == orientation_at(s.layout->0, parent_path(s.layout->0, id).push(side) + rest),
{
    assert(leaves_of(s.layout) == s.ids());
    let lt = s.layout->0;
    assert(s.ids().len() == s.panes.len());
    assert(lt is Split) by {
        if let LayoutNode::Leaf(_) = lt {
            assert(leaves(lt).len() == 1);
        }
    }
    lemma_remove_keeps_rest(lt, id, path);
    lemma_remove_lifts_sibling(lt, id, side, rest);
}

/// Docking keeps its direction: at the top or bottom the two panes sit directly in a
/// split one above the other, at the left or right in a split side by side.
pub proof fn lemma_dock_records_orientation(s: SessionState, src: PaneId, dest: PaneId, position: DockPosition)
    requires
        s.wf(),
        s.has(src),
        s.has(dest),
        src != dest,
        position != DockPosition::Center,
    ensures
        s.docked_layout(src, dest, position) is Some,
        parent_orientation(s.docked_layout(src, dest, position)->0, src) == Some(
            match position {
                DockPosition::Top => SplitOrientation::Vertical,
                DockPosition::Bottom => SplitOrientation::Vertical,
                _ => SplitOrientation::Horizontal,
            },
        ),
        parent_orientation(s.docked_layout(src, dest, position)->0, dest) == Some(
            match position {
                DockPosition::Top => SplitOrientation::Vertical,
                DockPosition::Bottom => SplitOrientation::Vertical,
                _ => SplitOrientation::Horizontal,
            },
        ),
{
    assert(leaves_of(s.layout) == s.ids());
    let lt = s.layout->0;
    let a = s.index(src);
    assert(s.ids().contains(src));
    assert(0 <= a < s.ids().len() && s.ids()[a] == src);
    lemma_remove_leaf(lt, src, a);
    lemma_history_without(s.ids(), src);
    assert(s.ids().remove(a) == history_without(s.ids(), src));
    let rest = s.ids().remove(a);
    assert(rest.contains(dest));
    assert(!rest.contains(src));
    assert(remove_leaf(lt, src) is Some);
    let r = remove_leaf(lt, src)->0;
    match position {
        DockPosition::Top => {
            assert(docked_split(src, dest, position) == pair(SplitOrientation::Vertical, src, dest));
            lemma_replace_parent(r, dest, SplitOrientation::Vertical, src, dest);
        },
        DockPosition::Bottom => {
            assert(docked_split(src, dest, position) == pair(SplitOrientation::Vertical, dest, src));
            lemma_replace_parent(r, dest, SplitOrientation::Vertical, dest, src);
        },
        DockPosition::Left => {
            assert(docked_split(src, dest, position) == pair(SplitOrientation::Horizontal, src, dest));
            lemma_replace_parent(r, dest, SplitOrientation::Horizontal, src, dest);
        },
        _ => {
            assert(docked_split(src, dest, position) == pair(SplitOrientation::Horizontal, dest, src));
            lemma_replace_parent(r, dest, SplitOrientation::Horizontal, dest, src);
        },
    }
}

/// The plain state of a session: its panes in layout order, the focus history (most
/// recently focused last), the next pane identifier it hands out and its settings.
pub ghost struct SessionState {
    pub panes: Seq<PaneView>,
    pub history: Seq<PaneId>,
    pub next_id: u64,
    pub sync_input_enabled: bool,
    pub use_wide_handle: bool,
    pub pane_title_style: PaneTitleStyle,
    pub show_when_single: bool,
    pub broadcasting: bool,
    pub new_pane_profile: Profile,
    pub layout: Option<LayoutNode>,
}

/// An arrangement that may be empty without the pane `x`.
pub open spec fn layout_remove(l: Option<LayoutNode>, x: PaneId) -> Option<LayoutNode> {
    match l {
        Some(t) => remove_leaf(t, x),
        None => None,
    }
}

/// An arrangement that may be empty with the pane `x` replaced by `r`.
pub open spec fn layout_replace(l: Option<LayoutNode>, x: PaneId, r: LayoutNode) -> Option<LayoutNode> {
    match l {
        Some(t) => Some(replace_leaf(t, x, r)),
        None => Some(r),
    }
}

/// An arrangement that may be empty with the panes `a` and `b` exchanged.
pub open spec fn layout_swap(l: Option<LayoutNode>, a: PaneId, b: PaneId) -> Option<LayoutNode> {
    match l {
        Some(t) => Some(swap_leaves(t, a, b)),
        None => None,
    }
}

/// A pane split in two: the pane itself first, the new pane second.
pub open spec fn split_node(target: PaneId, new_id: PaneId, orientation: SplitOrientation) -> LayoutNode {
    LayoutNode::Split {
        orientation,
        first: Box::new(LayoutNode::Leaf(target)),
        second: Box::new(LayoutNode::Leaf(new_id)),
    }
}

/// A new session: one fresh pane `id` with the default profile, its title bar shown as
/// the settings say for a lone pane, the display settings of `config`, the history holding
/// just that pane and input synchronisation off.
pub open spec fn initial_state(id: PaneId, config: AppConfig) -> SessionState {
    SessionState {
        panes: seq![
            PaneView {
                header_visible: pane_header_visible_spec(config.pane_title_style, 1, config.pane_title_show_when_single),
                ..fresh_pane(id, default_profile())
            },
        ],
        history: seq![id],
        next_id: (id.0 + 1) as u64,
        sync_input_enabled: false,
        use_wide_handle: config.use_wide_handle,
        pane_title_style: config.pane_title_style,
        show_when_single: config.pane_title_show_when_single,
        broadcasting: false,
        new_pane_profile: default_profile(),
        layout: Some(LayoutNode::Leaf(id)),
    }
}

impl SessionState {
    /// The pane identifiers in layout order.
    pub open spec fn ids(self) -> Seq<PaneId> {
        ids_of(self.panes)
    }

    /// The active pane: the most recently focused one.
    pub open spec fn active(self) -> Option<PaneId> {
        most_recent(self.history)
    }

    /// Whether a pane of the session has this identifier.
    pub open spec fn has(self, id: PaneId) -> bool {
        self.ids().contains(id)
    }

    /// The position of a pane in layout order.
    pub open spec fn index(self, id: PaneId) -> int {
        self.ids().index_of(id)
    }

    /// Whether title bars are shown for the current panes and settings.
    pub open spec fn headers_shown(self) -> bool {
        pane_header_visible_spec(self.pane_title_style, self.panes.len() as int, self.show_when_single)
    }

    /// The state after the pane `id` leaves the session: its neighbours keep their order,
    /// it leaves the focus history, and the most recently focused remaining pane is the
    /// only one flagged active.
    pub open spec fn without_pane(self, id: PaneId) -> SessionState {
        let h = history_without(self.history, id);
        SessionState {
            panes: flag_active(self.panes.remove(self.index(id)), most_recent(h)),
            history: h,
            layout: layout_remove(self.layout, id),
            ..self
        }
    }

    /// The state after the pane `id` is closed: as `without_pane`, with the title bars of
    /// the remaining panes shown or hidden for their new number.
    pub open spec fn after_close(self, id: PaneId) -> SessionState {
        let h = history_without(self.history, id);
        let rest = self.panes.remove(self.index(id));
        SessionState {
            panes: flag_active(
                with_headers(rest, pane_header_visible_spec(self.pane_title_style, rest.len() as int, self.show_when_single)),
                most_recent(h),
            ),
            history: h,
            layout: layout_remove(self.layout, id),
            ..self
        }
    }

    /// The state after the pane `target` is split in `orientation`: in the arrangement the
    /// pane becomes a split of itself and a fresh pane with the next identifier, side by
    /// side or one above the other; the fresh pane follows it in layout order and becomes
    /// the active, most recently focused pane, and title bars are shown or hidden for the
    /// new number of panes.
    pub open spec fn after_split(self, target: PaneId, orientation: SplitOrientation) -> SessionState {
        let new_id = PaneId(self.next_id);
        let panes = self.panes.insert(self.index(target) + 1, fresh_pane(new_id, self.new_pane_profile));
        SessionState {
            panes: flag_active(
                with_headers(panes, pane_header_visible_spec(self.pane_title_style, panes.len() as int, self.show_when_single)),
                Some(new_id),
            ),
            history: self.history.push(new_id),
            next_id: (self.next_id + 1) as u64,
            layout: layout_replace(self.layout, target, split_node(target, new_id, orientation)),
            ..self
        }
    }

    /// The panes after `src` is docked at `position` of `dest`: at the centre the two
    /// exchange places; at the top or left `src` moves just before `dest`, at the bottom
    /// or right just after it.
    pub open spec fn docked(self, src: PaneId, dest: PaneId, position: DockPosition) -> Seq<PaneView> {
        let a = self.index(src);
        match position {
            DockPosition::Center => self.panes.update(a, self.panes[self.index(dest)]).update(
                self.index(dest),
                self.panes[a],
            ),
            _ => {
                let rest = self.panes.remove(a);
                let d = ids_of(rest).index_of(dest);
                let at = match position {
                    DockPosition::Top => d,
                    DockPosition::Left => d,
                    _ => d + 1,
                };
                rest.insert(at, self.panes[a])
            },
        }
    }

    /// The arrangement after `src` is docked at `position` of `dest`: at the centre the
    /// two exchange places; otherwise `src` leaves its place and `dest` becomes a split of
    /// the two, one above the other for the top and bottom, side by side for the left and
    /// right (see `docked_split`).
    pub open spec fn docked_layout(self, src: PaneId, dest: PaneId, position: DockPosition) -> Option<LayoutNode> {
        match position {
            DockPosition::Center => layout_swap(self.layout, src, dest),
            _ => layout_replace(layout_remove(self.layout, src), dest, docked_split(src, dest, position)),
        }
    }

    /// The state after `src` is docked at `position` of `dest` (see `docked` and
    /// `docked_layout`): `src` becomes the active, most recently focused pane.
    pub open spec fn after_dock(self, src: PaneId, dest: PaneId, position: DockPosition) -> SessionState {
        SessionState {
            panes: flag_active(with_headers(self.docked(src, dest, position), self.headers_shown()), Some(src)),
            history: history_focus(self.history, src),
            layout: self.docked_layout(src, dest, position),
            ..self
        }
    }

    /// The state after `p` is adopted next to `target` at `position`: before it at the top
    /// or left, after it otherwise, and last when the session has no pane `target`. In the
    /// arrangement `target` becomes a split of the two (see `docked_split`); without such a
    /// pane the whole arrangement is split side by side with `p` on the right, and an
    /// empty session holds `p` alone. It becomes the active, most recently focused pane and
    /// title bars follow the new number of panes.
    pub open spec fn after_adopt(self, p: PaneView, target: PaneId, position: DockPosition) -> SessionState {
        let at = if self.has(target) {
            match position {
                DockPosition::Top => self.index(target),
                DockPosition::Left => self.index(target),
                _ => self.index(target) + 1,
            }
        } else {
            self.panes.len() as int
        };
        let panes = self.panes.insert(at, p);
        SessionState {
            panes: flag_active(
                with_headers(panes, pane_header_visible_spec(self.pane_title_style, panes.len() as int, self.show_when_single)),
                Some(p.pane_id),
            ),
            history: if self.panes.len() == 0 {
                seq![p.pane_id]
            } else {
                self.history.push(p.pane_id)
            },
            next_id: if p.pane_id.0 < self.next_id {
                self.next_id
            } else {
                (p.pane_id.0 + 1) as u64
            },
            layout: self.adopted_layout(p.pane_id, target, position),
            ..self
        }
    }

    /// The arrangement after the pane `id` is adopted at `position` of `target` (see
    /// `after_adopt`).
    pub open spec fn adopted_layout(self, id: PaneId, target: PaneId, position: DockPosition) -> Option<LayoutNode> {
        if self.panes.len() == 0 {
            Some(LayoutNode::Leaf(id))
        } else if self.has(target) {
            layout_replace(self.layout, target, docked_split(id, target, position))
        } else {
            match self.layout {
                Some(t) => Some(
                    LayoutNode::Split {
                        orientation: SplitOrientation::Horizontal,
                        first: Box::new(t),
                        second: Box::new(LayoutNode::Leaf(id)),
                    },
                ),
                None => Some(LayoutNode::Leaf(id)),
            }
        }
    }

    /// The state with the pane `id` replaced by `p`.
    pub open spec fn with_pane(self, id: PaneId, p: PaneView) -> SessionState {
        SessionState { panes: self.panes.update(self.index(id), p), ..self }
    }

    /// The state after the pane `id` is focused, if the session has it: it becomes the
    /// most recently focused pane and the only one flagged active.
    pub open spec fn focused(self, id: PaneId) -> SessionState {
        if self.has(id) {
            SessionState { panes: flag_active(self.panes, Some(id)), history: history_focus(self.history, id), ..self }
        } else {
            self
        }
    }

    /// The state after the active pane is split in `orientation`, when there is one and an
    /// identifier is left (see `after_split`).
    pub open spec fn after_split_active(self, orientation: SplitOrientation) -> SessionState {
        if self.panes.len() == 0 || self.next_id == u64::MAX {
            self
        } else {
            self.after_split(self.active()->0, orientation)
        }
    }

    /// The state after a reset: one fresh pane with identifier 1 and the profile for new
    /// panes, its title bar shown as the settings say for a lone pane, and input
    /// synchronisation off; the display settings are kept.
    pub open spec fn after_reset(self) -> SessionState {
        SessionState {
            panes: seq![
                PaneView {
                    header_visible: pane_header_visible_spec(self.pane_title_style, 1, self.show_when_single),
                    ..fresh_pane(PaneId(1), self.new_pane_profile)
                },
            ],
            history: seq![PaneId(1)],
            next_id: 2,
            sync_input_enabled: false,
            layout: Some(LayoutNode::Leaf(PaneId(1))),
            ..self
        }
    }

    /// Identifiers are unique and below the next one handed out; while the session has
    /// panes, the focus history lists each of them exactly once and the arrangement holds
    /// them in layout order.
    pub open spec fn wf(self) -> bool {
        &&& self.ids().no_duplicates()
        &&& self.history.no_duplicates()
        &&& forall|i: int| 0 <= i < self.panes.len() ==> (#[trigger] self.panes[i]).pane_id.0 < self.next_id
        &&& self.panes.len() > 0 ==> {
            &&& self.history.len() == self.panes.len()
            &&& forall|j: int| 0 <= j < self.history.len() ==> self.has(#[trigger] self.history[j])
            &&& forall|i: int| 0 <= i < self.panes.len() ==> self.history.contains(#[trigger] self.ids()[i])
            &&& leaves_of(self.layout) == self.ids()
        }
    }
}

/// A session: the panes of one tab, which of them is active, and how their title bars
/// and split handles are drawn.
pub struct SessionView {
    panes: Vec<TerminalPane>,
    history: Vec<PaneId>,
    next_id: u64,
    sync_input_enabled: bool,
    use_wide_handle: bool,
    pane_title_style: PaneTitleStyle,
    show_when_single: bool,
    broadcasting: bool,
    new_pane_profile: Profile,
    layout: Option<LayoutNode>,
}

impl View for SessionView {
    type V = SessionState;

    closed spec fn view(&self) -> SessionState {
        SessionState {
            panes: pane_views(self.panes@),
            history: self.history@,
            next_id: self.next_id,
            sync_input_enabled: self.sync_input_enabled,
            use_wide_handle: self.use_wide_handle,
            pane_title_style: self.pane_title_style,
            show_when_single: self.show_when_single,
            broadcasting: self.broadcasting,
            new_pane_profile: self.new_pane_profile,
            layout: self.layout,
        }
    }
}

impl SessionView {
    /// Whether the session's state is consistent (see `SessionState::wf`).
    pub open spec fn wf(&self) -> bool {
        self@.wf()
    }

    /// A session with one pane, `initial_pane_id`, and the settings of `config`: the pane
    /// is active and uses the default profile, input synchronisation is off.
    pub fn with_id_and_config(initial_pane_id: PaneId, config: &AppConfig) -> (s: Self)
        requires
            initial_pane_id.0 < u64::MAX,
        ensures
            s.wf(),
            s@ == initial_state(initial_pane_id, *config),
    {
        let mut pane = TerminalPane::new(initial_pane_id);
        let visible = pane_header_visible(config.pane_title_style, 1, config.pane_title_show_when_single);
        pane.set_header_visible(visible);
        let mut panes: Vec<TerminalPane> = Vec::new();
        panes.push(pane);
        let mut history: Vec<PaneId> = Vec::new();
        history.push(initial_pane_id);
        let s = SessionView {
            panes,
            history,
            next_id: initial_pane_id.0 + 1,
            sync_input_enabled: false,
            use_wide_handle: config.use_wide_handle,
            pane_title_style: config.pane_title_style,
            show_when_single: config.pane_title_show_when_single,
            broadcasting: false,
            new_pane_profile: Profile::default(),
            layout: Some(LayoutNode::Leaf(initial_pane_id)),
        };
        proof {
            assert(s@.panes =~= seq![s.panes@[0]@]);
            assert(s@.ids() =~= seq![initial_pane_id]);
        }
        s
    }

    /// A session with one pane, `initial_pane_id`, and the default settings.
    pub fn with_id(initial_pane_id: PaneId) -> (s: Self)
        requires
            initial_pane_id.0 < u64::MAX,
        ensures
            s.wf(),
            s@ == initial_state(initial_pane_id, default_app_config()),
    {
        let config = AppConfig::default();
        Self::with_id_and_config(initial_pane_id, &config)
    }

    /// A session whose one pane has identifier 1, with the default settings.
    pub fn new() -> (s: Self)
        ensures
            s.wf(),
            s@ == initial_state(PaneId(1), default_app_config()),
    {
        Self::with_id(PaneId(1))
    }

    /// Whether the session has no pane.
    pub fn is_empty(&self) -> (b: bool)
        ensures
            b == (self@.panes.len() == 0),
    {
        self.panes.len() == 0
    }

    /// The number of panes.
    pub fn pane_count(&self) -> (n: usize)
        ensures
            n == self@.panes.len(),
    {
        self.panes.len()
    }

    /// The active pane, if any.
    pub fn active_pane_id(&self) -> (id: Option<PaneId>)
        ensures
            id == self@.active(),
    {
        let n = self.history.len();
        if n == 0 {
            None
        } else {
            Some(self.history[n - 1])
        }
    }

    /// The arrangement of the panes, if the session has any.
    pub fn layout(&self) -> (r: Option<LayoutNode>)
        ensures
            r == self@.layout,
    {
        match &self.layout {
            Some(t) => Some(copy_layout(t)),
            None => None,
        }
    }

    /// The pane identifiers in layout order.
    pub fn pane_ids(&self) -> (ids: Vec<PaneId>)
        ensures
            ids@ == self@.ids(),
    {
        let mut ids: Vec<PaneId> = Vec::new();
        let n = self.panes.len();
        for i in 0..n
            invariant
                n == self.panes.len(),
                ids@ == ids_of(pane_views(self.panes@)).take(i as int),
        {
            let id = self.panes[i].pane_id();
            proof {
                assert(ids_of(pane_views(self.panes@)).take(i as int + 1) =~= ids_of(
                    pane_views(self.panes@),
                ).take(i as int).push(id));
            }
            ids.push(id);
        }
        proof {
            assert(ids_of(pane_views(self.panes@)).take(n as int) =~= ids_of(pane_views(self.panes@)));
        }
        ids
    }

    /// The position of the pane `id` in layout order, if the session has it.
    fn find_pane(&self, id: PaneId) -> (r: Option<usize>)
        ensures
            match r {
                Some(i) => i < self@.panes.len() && self@.panes[i as int].pane_id == id,
                None => !self@.has(id),
            },
    {
        let n = self.panes.len();
        for i in 0..n
            invariant
                n == self.panes.len(),
                forall|j: int| 0 <= j < i ==> (#[trigger] pane_views(self.panes@)[j]).pane_id != id,
        {
            if self.panes[i].pane_id() == id {
                return Some(i);
            }
        }
        proof {
            assert forall|j: int| 0 <= j < self@.panes.len() implies #[trigger] self@.ids()[j] != id by {
                assert(pane_views(self.panes@)[j].pane_id != id);
            }
        }
        None
    }

    /// The position of `id` in the focus history, if it is there.
    fn find_in_history(&self, id: PaneId) -> (r: Option<usize>)
        ensures
            match r {
                Some(k) => k < self@.history.len() && self@.history[k as int] == id,
                None => !self@.history.contains(id),
            },
    {
        let n = self.history.len();
        for k in 0..n
            invariant
                n == self.history.len(),
                forall|j: int| 0 <= j < k ==> self.history@[j] != id,
        {
            if self.history[k] == id {
                return Some(k);
            }
        }
        None
    }

    /// Whether the session has a pane with this identifier.
    pub fn has_pane(&self, id: PaneId) -> (b: bool)
        ensures
            b == self@.has(id),
    {
        match self.find_pane(id) {
            Some(i) => {
                assert(self@.ids()[i as int] == id);
                true
            },
            None => false,
        }
    }

    /// The pane with this identifier, if the session has it.
    pub fn pane(&self, id: PaneId) -> (r: Option<&TerminalPane>)
        requires
            self.wf(),
        ensures
            r is Some == self@.has(id),
            r matches Some(p) ==> p@ == self@.panes[self@.index(id)] && p@.pane_id == id,
    {
        match self.find_pane(id) {
            Some(i) => {
                proof {
                    self@.ids().index_of(id);
                    assert(self@.ids()[i as int] == id);
                    assert(self@.ids().contains(id));
                    let k = self@.index(id);
                    assert(0 <= k < self@.ids().len() && self@.ids()[k] == id);
                    assert(k == i);
                }
                Some(&self.panes[i])
            },
            None => None,
        }
    }
    /// Sets each pane's active flag: on for the active pane, off for the others.
    fn refresh_active_flags(&mut self)
        ensures
            final(self)@ == (SessionState {
                panes: flag_active(old(self)@.panes, old(self)@.active()),
                ..old(self)@
            }),
    {
        let active = self.active_pane_id();
        let n = self.panes.len();
        for i in 0..n
            invariant
                n == self.panes.len(),
                active == old(self)@.active(),
                self@ == (SessionState { panes: self@.panes, ..old(self)@ }),
                self@.panes.len() == n,
                old(self)@.panes.len() == n,
                forall|j: int|
                    0 <= j < i ==> #[trigger] self.panes@[j]@ == (PaneView {
                        active: active == Some(old(self).panes@[j]@.pane_id),
                        ..old(self).panes@[j]@
                    }),
                forall|j: int| i <= j < n ==> #[trigger] self.panes@[j]@ == old(self).panes@[j]@,
        {
            let id = self.panes[i].pane_id();
            let on = match active {
                Some(a) => a == id,
                None => false,
            };
            let ghost before = self.panes@;
            let _ = self.panes[i].set_active(on);
            proof {
                assert(self.panes@ == before.update(i as int, self.panes@[i as int]));
                assert forall|j: int| 0 <= j < n && j != i implies #[trigger] self.panes@[j] == before[j] by {}
            }
        }
        proof {
            assert(self@.panes =~= flag_active(old(self)@.panes, old(self)@.active()));
        }
    }

    /// Shows or hides every pane's title bar as the title style and pane count ask.
    fn refresh_headers(&mut self)
        ensures
            final(self)@ == (SessionState {
                panes: with_headers(old(self)@.panes, old(self)@.headers_shown()),
                ..old(self)@
            }),
    {
        let n = self.panes.len();
        let visible = pane_header_visible(self.pane_title_style, n, self.show_when_single);
        for i in 0..n
            invariant
                n == self.panes.len(),
                visible == old(self)@.headers_shown(),
                self@ == (SessionState { panes: self@.panes, ..old(self)@ }),
                self@.panes.len() == n,
                old(self)@.panes.len() == n,
                forall|j: int|
                    0 <= j < i ==> #[trigger] self.panes@[j]@ == (PaneView {
                        header_visible: visible,
                        ..old(self).panes@[j]@
                    }),
                forall|j: int| i <= j < n ==> #[trigger] self.panes@[j]@ == old(self).panes@[j]@,
        {
            let ghost before = self.panes@;
            self.panes[i].set_header_visible(visible);
            proof {
                assert(self.panes@ == before.update(i as int, self.panes@[i as int]));
                assert forall|j: int| 0 <= j < n && j != i implies #[trigger] self.panes@[j] == before[j] by {}
            }
        }
        proof {
            assert(self@.panes =~= with_headers(old(self)@.panes, old(self)@.headers_shown()));
        }
    }

    /// Removes `id` from the focus history.
    fn history_remove(&mut self, id: PaneId)
        requires
            old(self)@.history.no_duplicates(),
        ensures
            final(self)@ == (SessionState { history: history_without(old(self)@.history, id), ..old(self)@ }),
    {
        match self.find_in_history(id) {
            Some(k) => {
                proof {
                    let h = self@.history;
                    assert(h.contains(id));
                    let c = h.index_of(id);
                    assert(h[c] == id);
                    assert(c == k as int);
                }
                self.history.remove(k);
            },
            None => {},
        }
    }

    /// Makes `id` the most recently focused pane of the history.
    fn history_push_focus(&mut self, id: PaneId)
        requires
            old(self)@.history.no_duplicates(),
        ensures
            final(self)@ == (SessionState { history: history_focus(old(self)@.history, id), ..old(self)@ }),
    {
        self.history_remove(id);
        self.history.push(id);
    }

    /// Makes the pane `id` the active one, if the session has it: it becomes the most
    /// recently focused pane and the only one flagged active. Otherwise nothing changes.
    pub fn set_active_pane(&mut self, id: PaneId)
        requires
            old(self).wf(),
        ensures
            final(self).wf(),
            final(self)@ == old(self)@.focused(id),
    {
        if self.has_pane(id) {
            proof {
                lemma_history_focus(self@.history, id);
            }
            self.history_push_focus(id);
            proof {
                assert(self@.active() == Some(id));
            }
            self.refresh_active_flags();
            proof {
                lemma_ids_kept(old(self)@.panes, Some(id), true);
                let s = self@;
                assert(s.ids() == old(self)@.ids());
                assert forall|i: int| 0 <= i < s.panes.len() implies (#[trigger] s.panes[i]).pane_id.0 < s.next_id by {
                    assert(s.panes[i].pane_id == old(self)@.panes[i].pane_id);
                }
                assert forall|j: int| 0 <= j < s.history.len() implies s.has(#[trigger] s.history[j]) by {
                    assert(s.history.contains(s.history[j]));
                }
                assert forall|i: int| 0 <= i < s.panes.len() implies s.history.contains(#[trigger] s.ids()[i]) by {
                    assert(old(self)@.history.contains(old(self)@.ids()[i]));
                }
            }
        }
    }
    /// Takes the pane `id` out of the pane list and the focus history, and flags the most
    /// recently focused remaining pane as active.
    fn take_pane(&mut self, id: PaneId) -> (r: Option<TerminalPane>)
        requires
            old(self).wf(),
        ensures
            final(self).wf(),
            r is Some == old(self)@.has(id),
            !old(self)@.has(id) ==> final(self)@ == old(self)@,
            r matches Some(p) ==> {
                &&& p@ == old(self)@.panes[old(self)@.index(id)]
                &&& final(self)@ == old(self)@.without_pane(id)
            },
    {
        match self.find_pane(id) {
            None => None,
            Some(i) => {
                let ghost s = self@;
                proof {
                    assert(s.ids()[i as int] == id);
                    assert(s.ids().contains(id));
                    assert(s.index(id) == i as int);
                    lemma_history_without(s.history, id);
                    lemma_ids_remove(s.panes, i as int);
                }
                let pane = self.panes.remove(i);
                proof {
                    assert(pane_views(self.panes@) =~= s.panes.remove(i as int));
                }
                let l = self.layout.take();
                self.layout = match l {
                    Some(t) => remove_leaf_exec(t, id),
                    None => None,
                };
                proof {
                    assert(leaves_of(s.layout) == s.ids());
                    let lt = s.layout->0;
                    lemma_remove_leaf(lt, id, i as int);
                    assert(leaves_of(self@.layout) == s.ids().remove(i as int));
                }
                self.history_remove(id);
                self.refresh_active_flags();
                proof {
                    let t = self@;
                    lemma_ids_kept(s.panes.remove(i as int), most_recent(t.history), true);
                    assert(t.ids() == s.ids().remove(i as int));
                    assert(t.ids() == history_without(s.ids(), id));
                    lemma_wf_after_remove(s, t, id);
                    assert(t == s.without_pane(id));
                }
                Some(pane)
            },
        }
    }

    /// Closes the pane `id`, if the session has it (`true`): it leaves the layout and the
    /// focus history, the remaining panes' title bars follow their new number, and the
    /// most recently focused remaining pane becomes the active one. Otherwise nothing
    /// changes (`false`).
    pub fn close_pane(&mut self, id: PaneId) -> (closed: bool)
        requires
            old(self).wf(),
        ensures
            final(self).wf(),
            closed == old(self)@.has(id),
            final(self)@ == (if closed {
                old(self)@.after_close(id)
            } else {
                old(self)@
            }),
    {
        let ghost s = self@;
        match self.take_pane(id) {
            None => false,
            Some(mut pane) => {
                pane.close();
                let ghost mid = self@;
                let n = self.panes.len();
                let visible = pane_header_visible(self.pane_title_style, n, self.show_when_single);
                self.refresh_headers();
                self.refresh_active_flags();
                proof {
                    let t = self@;
                    let h = history_without(s.history, id);
                    let rest = s.panes.remove(s.index(id));
                    assert(mid.panes == flag_active(rest, most_recent(h)));
                    assert(t.panes =~= flag_active(
                        with_headers(rest, pane_header_visible_spec(s.pane_title_style, rest.len() as int, s.show_when_single)),
                        most_recent(h),
                    ));
                    lemma_ids_kept(rest, most_recent(h), visible);
                    lemma_ids_kept(with_headers(rest, visible), most_recent(h), visible);
                    lemma_ids_kept(mid.panes, most_recent(h), visible);
                    lemma_ids_kept(with_headers(mid.panes, visible), most_recent(h), visible);
                    assert(t.ids() == mid.ids());
                }
                true
            },
        }
    }

    /// Closes the active pane, if there is one (see `close_pane`).
    pub fn close_active(&mut self)
        requires
            old(self).wf(),
        ensures
            final(self).wf(),
            final(self)@ == (match old(self)@.active() {
                Some(id) => if old(self)@.has(id) {
                    old(self)@.after_close(id)
                } else {
                    old(self)@
                },
                None => old(self)@,
            }),
    {
        match self.active_pane_id() {
            Some(id) => {
                self.close_pane(id);
            },
            None => {},
        }
    }

    /// Closes every pane and empties the session; the focus history is kept.
    pub fn close(&mut self)
        requires
            old(self).wf(),
        ensures
            final(self).wf(),
            final(self)@ == (SessionState { panes: Seq::empty(), ..old(self)@ }),
    {
        let mut closed: Vec<TerminalPane> = Vec::new();
        std::mem::swap(&mut closed, &mut self.panes);
        let n = closed.len();
        for i in 0..n
            invariant
                n == closed.len(),
        {
            closed[i].close();
        }
        proof {
            assert(self@.panes =~= Seq::<PaneView>::empty());
        }
    }

    /// Takes the pane `id` out of the session to move it to another one, if the session
    /// has it: it leaves the layout and the focus history, unchanged, and the most recently
    /// focused remaining pane becomes the active one. Title bars are left to
    /// `rebuild_projection`.
    pub fn remove_pane_for_transfer(&mut self, id: PaneId) -> (r: Option<TerminalPane>)
        requires
            old(self).wf(),
        ensures
            final(self).wf(),
            r is Some == old(self)@.has(id),
            !old(self)@.has(id) ==> final(self)@ == old(self)@,
            r matches Some(p) ==> {
                &&& p@ == old(self)@.panes[old(self)@.index(id)]
                &&& final(self)@ == old(self)@.without_pane(id)
            },
    {
        self.take_pane(id)
    }

    /// Shows or hides every pane's title bar for the current title style and number of
    /// panes, after the layout changed.
    pub fn rebuild_projection(&mut self)
        requires
            old(self).wf(),
        ensures
            final(self).wf(),
            final(self)@ == (SessionState {
                panes: with_headers(old(self)@.panes, old(self)@.headers_shown()),
                ..old(self)@
            }),
    {
        let ghost s = self@;
        self.refresh_headers();
        proof {
            lemma_ids_kept(s.panes, None, s.headers_shown());
            assert(self@.ids() == s.ids());
            assert forall|i: int| 0 <= i < self@.panes.len() implies (#[trigger] self@.panes[i]).pane_id.0 < self@.next_id by {
                assert(self@.panes[i].pane_id == s.panes[i].pane_id);
            }
        }
    }
    /// Splits the pane `target`, if the session has it and an identifier is left: a fresh
    /// pane with the next identifier and the session's profile for new panes follows it
    /// and becomes the active pane, and title bars follow the new number of panes.
    /// Returns the new pane's identifier; otherwise nothing changes. How the two panes
    /// are arranged (`orientation`) is drawn by the layout.
    pub fn split_pane(&mut self, target: PaneId, orientation: SplitOrientation) -> (r: Option<PaneId>)
        requires
            old(self).wf(),
        ensures
            final(self).wf(),
            r is Some == (old(self)@.has(target) && old(self)@.next_id < u64::MAX),
            r is None ==> final(self)@ == old(self)@,
            r matches Some(new_id) ==> new_id == PaneId(old(self)@.next_id) && final(self)@ == old(
                self,
            )@.after_split(target, orientation),
    {
        match self.find_pane(target) {
            None => None,
            Some(i) => {
                if self.next_id == u64::MAX {
                    return None;
                }
                let ghost s = self@;
                let new_id = PaneId(self.next_id);
                proof {
                    assert(s.ids()[i as int] == target);
                    assert(s.ids().contains(target));
                    assert(s.index(target) == i as int);
                }
                let mut pane = TerminalPane::new(new_id);
                pane.apply_profile(&self.new_pane_profile);
                assert(i < self.panes.len());
                self.panes.insert(i + 1, pane);
                self.next_id = self.next_id + 1;
                let node = LayoutNode::Split {
                    orientation,
                    first: Box::new(LayoutNode::Leaf(target)),
                    second: Box::new(LayoutNode::Leaf(new_id)),
                };
                let l = self.layout.take();
                self.layout = match l {
                    Some(t) => Some(replace_leaf_exec(t, target, node)),
                    None => Some(node),
                };
                proof {
                    assert(node == split_node(target, new_id, orientation));
                    assert(leaves_of(s.layout) == s.ids());
                    let lt = s.layout->0;
                    lemma_replace_leaf(lt, target, node, i as int);
                    lemma_pair_leaves(orientation, target, new_id);
                    assert(leaves_of(self@.layout) =~= s.ids().insert(i + 1, new_id));
                }
                proof {
                    let fresh = fresh_pane(new_id, s.new_pane_profile);
                    assert(pane_views(self.panes@) =~= s.panes.insert(i + 1, fresh));
                    lemma_ids_insert(s.panes, i + 1, fresh);
                    assert(!s.history.contains(new_id)) by {
                        if s.history.contains(new_id) {
                            let j = choose|j: int| 0 <= j < s.history.len() && s.history[j] == new_id;
                            assert(s.has(s.history[j]));
                            let m = choose|m: int| 0 <= m < s.ids().len() && s.ids()[m] == new_id;
                            assert(s.panes[m].pane_id.0 < s.next_id);
                        }
                    }
                    lemma_history_without_absent(s.history, new_id);
                }
                self.history_push_focus(new_id);
                let ghost mid = self@;
                proof {
                    assert(!s.has(new_id)) by {
                        if s.has(new_id) {
                            let m = choose|m: int| 0 <= m < s.ids().len() && s.ids()[m] == new_id;
                            assert(s.panes[m].pane_id.0 < s.next_id);
                        }
                    }
                    lemma_wf_after_insert(s, mid, i + 1, new_id);
                }
                let n = self.panes.len();
                let visible = pane_header_visible(self.pane_title_style, n, self.show_when_single);
                self.refresh_headers();
                self.refresh_active_flags();
                proof {
                    let t = self@;
                    lemma_ids_kept(mid.panes, Some(new_id), visible);
                    lemma_ids_kept(with_headers(mid.panes, visible), Some(new_id), visible);
                    assert(t.ids() == mid.ids());
                    assert(t =~= s.after_split(target, orientation));
                }
                Some(new_id)
            },
        }
    }

    /// Splits the active pane (see `split_pane`); with no pane, nothing changes. Should the
    /// active pane be unknown, the first pane is made active and split.
    pub fn split_active(&mut self, orientation: SplitOrientation) -> (r: Option<PaneId>)
        requires
            old(self).wf(),
        ensures
            final(self).wf(),
            old(self)@.panes.len() == 0 ==> r is None && final(self)@ == old(self)@,
            old(self)@.panes.len() > 0 ==> {
                &&& old(self)@.active() is Some
                &&& r is Some == (old(self)@.next_id < u64::MAX)
                &&& r is None ==> final(self)@ == old(self)@
                &&& r matches Some(new_id) ==> new_id == PaneId(old(self)@.next_id) && final(self)@
                    == old(self)@.after_split(old(self)@.active()->0, orientation)
            },
    {
        let target = match self.active_pane_id() {
            Some(a) => {
                if self.has_pane(a) {
                    a
                } else if self.panes.len() == 0 {
                    return None;
                } else {
                    let first = self.panes[0].pane_id();
                    self.set_active_pane(first);
                    first
                }
            },
            None => {
                if self.panes.len() == 0 {
                    return None;
                }
                let first = self.panes[0].pane_id();
                self.set_active_pane(first);
                first
            },
        };
        proof {
            if old(self)@.panes.len() > 0 {
                assert(old(self)@.history.len() > 0);
                let a = old(self)@.history.last();
                assert(old(self)@.has(old(self)@.history[old(self)@.history.len() - 1]));
                assert(self@ == old(self)@);
            }
        }
        self.split_pane(target, orientation)
    }

    /// A pane received keyboard focus. If the session has it, it is flagged as the only
    /// active pane and, unless it already was the active one, becomes the most recently
    /// focused pane; returns whether the active pane changed. Otherwise nothing changes.
    pub fn pane_focused(&mut self, id: PaneId) -> (changed: bool)
        requires
            old(self).wf(),
        ensures
            final(self).wf(),
            changed == (old(self)@.has(id) && old(self)@.active() != Some(id)),
            final(self)@ == (if old(self)@.has(id) {
                SessionState {
                    panes: flag_active(old(self)@.panes, Some(id)),
                    history: if changed {
                        history_focus(old(self)@.history, id)
                    } else {
                        old(self)@.history
                    },
                    ..old(self)@
                }
            } else {
                old(self)@
            }),
    {
        if !self.has_pane(id) {
            return false;
        }
        let changed = match self.active_pane_id() {
            Some(a) => a != id,
            None => true,
        };
        if changed {
            self.set_active_pane(id);
        } else {
            let ghost s = self@;
            self.refresh_active_flags();
            proof {
                lemma_ids_kept(s.panes, Some(id), true);
                assert(self@.ids() == s.ids());
                assert forall|i: int| 0 <= i < self@.panes.len() implies (#[trigger] self@.panes[i]).pane_id.0
                    < self@.next_id by {
                    assert(self@.panes[i].pane_id == s.panes[i].pane_id);
                }
            }
        }
        changed
    }
    /// Exchanges the panes at positions `i` and `j`.
    fn swap_at(&mut self, i: usize, j: usize)
        requires
            i < old(self)@.panes.len(),
            j < old(self)@.panes.len(),
        ensures
            final(self)@ == (SessionState {
                panes: old(self)@.panes.update(i as int, old(self)@.panes[j as int]).update(
                    j as int,
                    old(self)@.panes[i as int],
                ),
                ..old(self)@
            }),
    {
        if i == j {
            proof {
                assert(self@.panes.update(i as int, self@.panes[j as int]).update(j as int, self@.panes[i as int])
                    =~= self@.panes);
            }
            return;
        }
        let ghost v = self.panes@;
        let mut spare = TerminalPane::new(PaneId(0));
        self.panes.set_and_swap(i, &mut spare);
        self.panes.set_and_swap(j, &mut spare);
        self.panes.set_and_swap(i, &mut spare);
        proof {
            assert(self.panes@ =~= v.update(i as int, v[j as int]).update(j as int, v[i as int]));
            assert(pane_views(self.panes@) =~= pane_views(v).update(i as int, pane_views(v)[j as int]).update(
                j as int,
                pane_views(v)[i as int],
            ));
        }
    }

    /// Moves the pane `src`, at position `a`, as docking it at `position` of `dest`, at
    /// position `b`, asks.
    fn move_for_dock(&mut self, src: PaneId, dest: PaneId, position: DockPosition, a: usize, b: usize)
        requires
            old(self).wf(),
            src != dest,
            a < old(self)@.panes.len(),
            b < old(self)@.panes.len(),
            old(self)@.index(src) == a,
            old(self)@.index(dest) == b,
            old(self)@.ids()[a as int] == src,
            old(self)@.ids()[b as int] == dest,
        ensures
            final(self).wf(),
            final(self)@ == (SessionState {
                panes: old(self)@.docked(src, dest, position),
                layout: old(self)@.docked_layout(src, dest, position),
                ..old(self)@
            }),
    {
        let ghost s = self@;
        match position {
            DockPosition::Center => {
                self.swap_at(a, b);
                let l = self.layout.take();
                self.layout = match l {
                    Some(t) => Some(swap_leaves_exec(t, src, dest)),
                    None => None,
                };
                proof {
                    lemma_swap_entries(s.ids(), a as int, b as int);
                    assert(self@.ids() =~= s.ids().update(a as int, s.ids()[b as int]).update(
                        b as int,
                        s.ids()[a as int],
                    ));
                    assert(leaves_of(s.layout) == s.ids());
                    lemma_swap_leaves(s.layout->0, src, dest);
                    lemma_swap_is_update(s.ids(), a as int, b as int, src, dest);
                    lemma_wf_permuted(s, self@);
                }
            },
            _ => {
                assert(a < self.panes.len());
                let pane = self.panes.remove(a);
                let ghost rest = s.panes.remove(a as int);
                proof {
                    assert(pane_views(self.panes@) =~= rest);
                    lemma_ids_remove(s.panes, a as int);
                    lemma_history_without(s.ids(), src);
                    assert(s.ids().contains(src));
                    assert(ids_of(rest) == history_without(s.ids(), src));
                    assert(s.ids().contains(dest));
                    assert(ids_of(rest).contains(dest));
                }
                let d = match self.find_pane(dest) {
                    Some(d) => d,
                    None => {
                        proof {
                            assert(false);
                        }
                        return;
                    },
                };
                proof {
                    assert(self@.panes[d as int].pane_id == dest);
                    assert(ids_of(rest)[d as int] == dest);
                    assert(ids_of(rest).index_of(dest) == d as int);
                }
                let at = match position {
                    DockPosition::Top => d,
                    DockPosition::Left => d,
                    _ => d + 1,
                };
                self.panes.insert(at, pane);
                let node = docked_split_exec(src, dest, position);
                let l = self.layout.take();
                self.layout = match l {
                    Some(t) => match remove_leaf_exec(t, src) {
                        Some(r) => Some(replace_leaf_exec(r, dest, node)),
                        None => Some(node),
                    },
                    None => Some(node),
                };
                proof {
                    assert(pane_views(self.panes@) =~= rest.insert(at as int, s.panes[a as int]));
                    assert(self@.panes == s.docked(src, dest, position));
                    lemma_ids_insert(rest, at as int, s.panes[a as int]);
                    lemma_insert_absent(ids_of(rest), at as int, src);
                    lemma_ids_remove(s.panes, a as int);
                    lemma_dock_layout_leaves(s, src, dest, position, a as int, d as int);
                    assert(leaves_of(self@.layout) == ids_of(rest).insert(at as int, src));
                    assert(self@.layout == s.docked_layout(src, dest, position));
                    lemma_wf_permuted(s, self@);
                }
            },
        }
    }

    /// Docks the pane `src` at `position` of the pane `dest`. A pane of another session
    /// is left to the caller to transfer (`FromOtherSession`); docking a pane onto itself
    /// or onto a pane this session does not have is refused. Otherwise the panes are
    /// rearranged as `SessionState::docked` says and `src` becomes the active pane.
    pub fn dock_pane(&mut self, src: PaneId, dest: PaneId, position: DockPosition) -> (r: DockOutcome)
        requires
            old(self).wf(),
        ensures
            final(self).wf(),
            r == (if !old(self)@.has(src) {
                DockOutcome::FromOtherSession
            } else if src == dest || !old(self)@.has(dest) {
                DockOutcome::Refused
            } else {
                DockOutcome::Docked
            }),
            r == DockOutcome::Docked ==> final(self)@ == old(self)@.after_dock(src, dest, position),
            r != DockOutcome::Docked ==> final(self)@ == old(self)@,
    {
        let a = match self.find_pane(src) {
            None => {
                return DockOutcome::FromOtherSession;
            },
            Some(a) => a,
        };
        assert(self@.panes[a as int].pane_id == src);
        assert(self@.ids()[a as int] == src);
        if src == dest {
            return DockOutcome::Refused;
        }
        let b = match self.find_pane(dest) {
            None => {
                return DockOutcome::Refused;
            },
            Some(b) => b,
        };
        let ghost s = self@;
        proof {
            assert(s.panes[b as int].pane_id == dest);
            assert(s.ids()[b as int] == dest);
            assert(s.ids().contains(src));
            assert(s.ids().contains(dest));
            assert(s.index(src) == a as int);
            assert(s.index(dest) == b as int);
        }
        self.move_for_dock(src, dest, position, a, b);
        let ghost mid = self@;
        self.refresh_headers();
        proof {
            lemma_ids_kept(mid.panes, None, mid.headers_shown());
            assert(self@.ids() == mid.ids());
            lemma_wf_permuted(mid, self@);
            assert(mid.panes.len() == s.panes.len()) by {
                assert(mid.ids().len() == s.ids().len());
            }
            assert(self@.has(src)) by {
                assert(mid.ids() == s.docked(src, dest, position).map_values(|p: PaneView| p.pane_id));
                lemma_history_without(s.ids(), src);
            }
        }
        self.set_active_pane(src);
        DockOutcome::Docked
    }

    /// Exchanges the places of the panes `a` and `b` if the session has both (`true`),
    /// and shows or hides title bars for the current settings; otherwise nothing changes.
    pub fn swap_panes(&mut self, a: PaneId, b: PaneId) -> (swapped: bool)
        requires
            old(self).wf(),
        ensures
            final(self).wf(),
            swapped == (old(self)@.has(a) && old(self)@.has(b)),
            final(self)@ == (if swapped {
                SessionState {
                    panes: with_headers(
                        old(self)@.panes.update(old(self)@.index(a), old(self)@.panes[old(self)@.index(b)]).update(
                            old(self)@.index(b),
                            old(self)@.panes[old(self)@.index(a)],
                        ),
                        old(self)@.headers_shown(),
                    ),
                    layout: layout_swap(old(self)@.layout, a, b),
                    ..old(self)@
                }
            } else {
                old(self)@
            }),
    {
        let i = match self.find_pane(a) {
            None => {
                return false;
            },
            Some(i) => i,
        };
        let j = match self.find_pane(b) {
            None => {
                return false;
            },
            Some(j) => j,
        };
        let ghost s = self@;
        proof {
            assert(s.panes[i as int].pane_id == a);
            assert(s.panes[j as int].pane_id == b);
            assert(s.ids()[i as int] == a);
            assert(s.ids()[j as int] == b);
            assert(s.ids().contains(a));
            assert(s.ids().contains(b));
            assert(s.index(a) == i as int);
            assert(s.index(b) == j as int);
        }
        self.swap_at(i, j);
        let l = self.layout.take();
        self.layout = match l {
            Some(t) => Some(swap_leaves_exec(t, a, b)),
            None => None,
        };
        proof {
            lemma_swap_entries(s.ids(), i as int, j as int);
            assert(self@.ids() =~= s.ids().update(i as int, s.ids()[j as int]).update(j as int, s.ids()[i as int]));
            assert(leaves_of(s.layout) == s.ids());
            lemma_swap_leaves(s.layout->0, a, b);
            lemma_swap_is_update(s.ids(), i as int, j as int, a, b);
            lemma_wf_permuted(s, self@);
        }
        self.rebuild_projection();
        true
    }
    /// Inserts a pane whose identifier the session does not have at position `at`,
    /// raises the next identifier above it and records it as most recently focused.
    fn insert_adopted(&mut self, pane: TerminalPane, at: usize, target: PaneId, position: DockPosition)
        requires
            old(self).wf(),
            !old(self)@.has(pane@.pane_id),
            pane@.pane_id.0 < u64::MAX,
            at <= old(self)@.panes.len(),
            old(self)@.has(target) ==> at == (match position {
                DockPosition::Top => old(self)@.index(target),
                DockPosition::Left => old(self)@.index(target),
                _ => old(self)@.index(target) + 1,
            }),
            !old(self)@.has(target) ==> at == old(self)@.panes.len(),
        ensures
            final(self).wf(),
            final(self)@ == (SessionState {
                panes: old(self)@.panes.insert(at as int, pane@),
                history: if old(self)@.panes.len() == 0 {
                    seq![pane@.pane_id]
                } else {
                    old(self)@.history.push(pane@.pane_id)
                },
                next_id: if pane@.pane_id.0 < old(self)@.next_id {
                    old(self)@.next_id
                } else {
                    (pane@.pane_id.0 + 1) as u64
                },
                layout: old(self)@.adopted_layout(pane@.pane_id, target, position),
                ..old(self)@
            }),
    {
        let ghost s = self@;
        let ghost p = pane@;
        let id = pane.pane_id();
        let was_empty = self.panes.len() == 0;
        let node = docked_split_exec(id, target, position);
        let l = self.layout.take();
        self.layout = if was_empty {
            Some(LayoutNode::Leaf(id))
        } else {
            match l {
                Some(t) => if has_leaf(&t, target) {
                    Some(replace_leaf_exec(t, target, node))
                } else {
                    Some(
                        LayoutNode::Split {
                            orientation: SplitOrientation::Horizontal,
                            first: Box::new(t),
                            second: Box::new(LayoutNode::Leaf(id)),
                        },
                    )
                },
                None => Some(LayoutNode::Leaf(id)),
            }
        };
        proof {
            if !was_empty {
                lemma_adopted_layout_leaves(s, id, target, position, at as int);
                assert(self@.layout == s.adopted_layout(id, target, position));
            }
        }
        self.panes.insert(at, pane);
        if self.next_id <= id.0 {
            self.next_id = id.0 + 1;
        }
        if was_empty {
            self.history = Vec::new();
        }
        self.history.push(id);
        proof {
            let mid = self@;
            assert(mid.panes =~= s.panes.insert(at as int, p));
            lemma_ids_insert(s.panes, at as int, p);
            if was_empty {
                assert(mid.history =~= seq![id]);
                assert(mid.ids() =~= seq![id]);
                assert(mid.wf());
            } else {
                lemma_wf_after_insert(s, mid, at as int, id);
            }
        }
    }

    /// Takes in a pane moved from another session, next to `target` at `position` (see
    /// `SessionState::after_adopt`), and makes it the active pane. A pane whose
    /// identifier this session already has, or the largest identifier, is handed back
    /// and nothing changes.
    pub fn adopt_pane(&mut self, pane: TerminalPane, target: PaneId, position: DockPosition) -> (r: Option<TerminalPane>)
        requires
            old(self).wf(),
        ensures
            final(self).wf(),
            r is Some == (old(self)@.has(pane@.pane_id) || pane@.pane_id.0 == u64::MAX),
            r matches Some(q) ==> q == pane && final(self)@ == old(self)@,
            r is None ==> final(self)@ == old(self)@.after_adopt(pane@, target, position),
    {
        let id = pane.pane_id();
        if self.has_pane(id) || id.0 == u64::MAX {
            return Some(pane);
        }
        let ghost s = self@;
        let ghost p = pane@;
        let at: usize = match self.find_pane(target) {
            Some(t) => {
                proof {
                    assert(s.panes[t as int].pane_id == target);
                    assert(s.ids()[t as int] == target);
                    assert(s.ids().contains(target));
                    assert(s.index(target) == t as int);
                }
                assert(t < self.panes.len());
                match position {
                    DockPosition::Top => t,
                    DockPosition::Left => t,
                    _ => t + 1,
                }
            },
            None => self.panes.len(),
        };
        self.insert_adopted(pane, at, target, position);
        let ghost mid = self@;
        self.refresh_headers();
        self.refresh_active_flags();
        proof {
            let t = self@;
            let hv = mid.headers_shown();
            lemma_ids_kept(mid.panes, Some(id), hv);
            lemma_ids_kept(with_headers(mid.panes, hv), Some(id), hv);
            assert(t.ids() == mid.ids());
            assert(t.active() == Some(id));
            assert(t =~= s.after_adopt(p, target, position));
        }
        None
    }

    /// A session made of one existing pane, with the settings of `config`: the pane is
    /// the active one and its title bar follows the settings.
    pub fn with_existing_pane(pane: TerminalPane, config: &AppConfig) -> (s: Self)
        requires
            pane@.pane_id.0 < u64::MAX,
        ensures
            s.wf(),
            s@.panes == seq![
                PaneView {
                    active: true,
                    header_visible: pane_header_visible_spec(
                        config.pane_title_style,
                        1,
                        config.pane_title_show_when_single,
                    ),
                    ..pane@
                },
            ],
            s@.history == seq![pane@.pane_id],
            s@.next_id == pane@.pane_id.0 + 1,
            s@.layout == Some(LayoutNode::Leaf(pane@.pane_id)),
            !s@.sync_input_enabled,
            s@.use_wide_handle == config.use_wide_handle,
            s@.pane_title_style == config.pane_title_style,
            s@.show_when_single == config.pane_title_show_when_single,
            !s@.broadcasting,
            s@.new_pane_profile == default_profile(),
    {
        let id = pane.pane_id();
        let mut p = pane;
        let visible = pane_header_visible(config.pane_title_style, 1, config.pane_title_show_when_single);
        p.set_header_visible(visible);
        let _ = p.set_active(true);
        let mut panes: Vec<TerminalPane> = Vec::new();
        panes.push(p);
        let mut history: Vec<PaneId> = Vec::new();
        history.push(id);
        let s = SessionView {
            panes,
            history,
            next_id: id.0 + 1,
            sync_input_enabled: false,
            use_wide_handle: config.use_wide_handle,
            pane_title_style: config.pane_title_style,
            show_when_single: config.pane_title_show_when_single,
            broadcasting: false,
            new_pane_profile: Profile::default(),
            layout: Some(LayoutNode::Leaf(id)),
        };
        proof {
            assert(s@.panes =~= seq![s.panes@[0]@]);
            assert(s@.ids() =~= seq![id]);
        }
        s
    }

    /// Replaces every pane by a single fresh pane with identifier 1 that uses the profile
    /// for new panes; the history holds just that pane and input synchronisation is off.
    /// The display settings are kept.
    pub fn reset(&mut self)
        requires
            old(self).wf(),
        ensures
            final(self).wf(),
            final(self)@ == old(self)@.after_reset(),
    {
        self.close();
        let mut pane = TerminalPane::new(PaneId(1));
        pane.apply_profile(&self.new_pane_profile);
        let visible = pane_header_visible(self.pane_title_style, 1, self.show_when_single);
        pane.set_header_visible(visible);
        let mut panes: Vec<TerminalPane> = Vec::new();
        panes.push(pane);
        let mut history: Vec<PaneId> = Vec::new();
        history.push(PaneId(1));
        self.panes = panes;
        self.history = history;
        self.next_id = 2;
        self.sync_input_enabled = false;
        self.layout = Some(LayoutNode::Leaf(PaneId(1)));
        proof {
            assert(self@.panes =~= seq![self.panes@[0]@]);
            assert(self@.ids() =~= seq![PaneId(1)]);
        }
    }

    /// The profile given to panes the session creates.
    pub fn set_new_pane_profile(&mut self, profile: &Profile)
        requires
            old(self).wf(),
        ensures
            final(self).wf(),
            final(self)@ == (SessionState { new_pane_profile: *profile, ..old(self)@ }),
    {
        self.new_pane_profile = *profile;
    }

    /// Whether input typed in one pane is copied to the others.
    pub fn sync_input_enabled(&self) -> (b: bool)
        ensures
            b == self@.sync_input_enabled,
    {
        self.sync_input_enabled
    }

    /// Turns copying of input between panes on or off.
    pub fn set_sync_input_enabled(&mut self, enabled: bool)
        requires
            old(self).wf(),
        ensures
            final(self).wf(),
            final(self)@ == (SessionState { sync_input_enabled: enabled, ..old(self)@ }),
    {
        self.sync_input_enabled = enabled;
    }

    /// Flips copying of input between panes and returns the new setting.
    pub fn toggle_sync_input(&mut self) -> (enabled: bool)
        requires
            old(self).wf(),
        ensures
            final(self).wf(),
            enabled == !old(self)@.sync_input_enabled,
            final(self)@ == (SessionState { sync_input_enabled: enabled, ..old(self)@ }),
    {
        self.sync_input_enabled = !self.sync_input_enabled;
        self.sync_input_enabled
    }

    /// The position of the pane `id`, with the facts that tie it to the view.
    fn locate(&self, id: PaneId) -> (r: Option<usize>)
        requires
            self.wf(),
        ensures
            r is Some == self@.has(id),
            r matches Some(i) ==> i == self@.index(id) && i < self@.panes.len() && self@.panes[i as int].pane_id == id,
    {
        match self.find_pane(id) {
            Some(i) => {
                proof {
                    assert(self@.panes[i as int].pane_id == id);
                    assert(self@.ids()[i as int] == id);
                    assert(self@.ids().contains(id));
                    assert(self@.index(id) == i as int);
                }
                Some(i)
            },
            None => None,
        }
    }

    /// Turns input synchronisation of the pane `id` on or off, if the session has it
    /// (`true`); otherwise nothing changes.
    pub fn set_pane_sync_enabled(&mut self, id: PaneId, enabled: bool) -> (found: bool)
        requires
            old(self).wf(),
        ensures
            final(self).wf(),
            found == old(self)@.has(id),
            final(self)@ == (if found {
                old(self)@.with_pane(id, PaneView { sync_enabled: enabled, ..old(self)@.panes[old(self)@.index(id)] })
            } else {
                old(self)@
            }),
    {
        match self.locate(id) {
            None => false,
            Some(i) => {
                let ghost s = self@;
                let ghost before = self.panes@;
                self.panes[i].set_sync_enabled(enabled);
                proof {
                    assert(self.panes@ == before.update(i as int, self.panes@[i as int]));
                    let np = PaneView { sync_enabled: enabled, ..s.panes[i as int] };
                    assert(self@.panes =~= s.panes.update(i as int, np));
                    lemma_update_wf(s, self@, i as int, np);
                }
                true
            },
        }
    }
    /// The pane of the session that input goes to when none has asked: the active pane
    /// if the session has it, otherwise some pane of the session, and none when it is
    /// empty.
    pub fn focus_target(&self) -> (r: Option<PaneId>)
        requires
            self.wf(),
        ensures
            (self@.active() is Some && self@.has(self@.active()->0)) ==> r == self@.active(),
            r matches Some(id) ==> self@.has(id),
            r is None == (self@.panes.len() == 0),
    {
        match self.active_pane_id() {
            Some(a) => {
                if self.has_pane(a) {
                    return Some(a);
                }
            },
            None => {},
        }
        if self.panes.len() == 0 {
            None
        } else {
            let id = self.panes[0].pane_id();
            proof {
                assert(self@.panes[0].pane_id == id);
                assert(self@.ids()[0] == id);
            }
            Some(id)
        }
    }

    /// Starts copying input typed in `sender` to the other panes and returns them, in
    /// layout order: the panes other than the sender with input synchronisation on. Nothing
    /// is copied, and nothing changes, while a copy is under way (so that copied input is
    /// not copied again), when synchronisation is off for the session, or when the sender
    /// is not a pane of the session with synchronisation on.
    pub fn begin_broadcast(&mut self, sender: PaneId) -> (targets: Option<Vec<PaneId>>)
        requires
            old(self).wf(),
        ensures
            final(self).wf(),
            targets is Some == (!old(self)@.broadcasting && old(self)@.sync_input_enabled && old(self)@.has(sender)
                && old(self)@.panes[old(self)@.index(sender)].sync_enabled),
            targets matches Some(t) ==> t@ == broadcast_targets(old(self)@.panes, sender) && final(self)@ == (
            SessionState { broadcasting: true, ..old(self)@ }),
            targets is None ==> final(self)@ == old(self)@,
    {
        if self.broadcasting || !self.sync_input_enabled {
            return None;
        }
        let sender_sync = match self.locate(sender) {
            Some(i) => self.panes[i].is_sync_enabled(),
            None => false,
        };
        if !sender_sync {
            return None;
        }
        let mut targets: Vec<PaneId> = Vec::new();
        let n = self.panes.len();
        for i in 0..n
            invariant
                n == self.panes.len(),
                targets@ == broadcast_targets(pane_views(self.panes@).take(i as int), sender),
        {
            let id = self.panes[i].pane_id();
            let on = self.panes[i].is_sync_enabled();
            proof {
                let v = pane_views(self.panes@);
                assert(v.take(i as int + 1).drop_last() =~= v.take(i as int));
                assert(v.take(i as int + 1).last() == v[i as int]);
            }
            if id != sender && on {
                targets.push(id);
            }
        }
        proof {
            assert(pane_views(self.panes@).take(n as int) =~= pane_views(self.panes@));
        }
        self.broadcasting = true;
        Some(targets)
    }

    /// Ends the copy of input that `begin_broadcast` started.
    pub fn end_broadcast(&mut self)
        requires
            old(self).wf(),
        ensures
            final(self).wf(),
            final(self)@ == (SessionState { broadcasting: false, ..old(self)@ }),
    {
        self.broadcasting = false;
    }

    /// Makes the active pane's font one step larger, if the session has an active pane.
    pub fn zoom_in_active(&mut self)
        requires
            old(self).wf(),
        ensures
            final(self).wf(),
            final(self)@ == (match old(self)@.active() {
                Some(a) => if old(self)@.has(a) {
                    old(self)@.with_pane(
                        a,
                        PaneView { font_scale: zoomed_in(old(self)@.panes[old(self)@.index(a)].font_scale), ..old(self)@.panes[old(self)@.index(a)] },
                    )
                } else {
                    old(self)@
                },
                None => old(self)@,
            }),
    {
        if let Some(a) = self.active_pane_id() {
            if let Some(i) = self.locate(a) {
                let ghost s = self@;
                let ghost before = self.panes@;
                self.panes[i].zoom_in();
                proof {
                    assert(self.panes@ == before.update(i as int, self.panes@[i as int]));
                    let np = PaneView { font_scale: zoomed_in(s.panes[i as int].font_scale), ..s.panes[i as int] };
                    assert(self@.panes =~= s.panes.update(i as int, np));
                    lemma_update_wf(s, self@, i as int, np);
                }
            }
        }
    }

    /// Makes the active pane's font one step smaller, if the session has an active pane.
    pub fn zoom_out_active(&mut self)
        requires
            old(self).wf(),
        ensures
            final(self).wf(),
            final(self)@ == (match old(self)@.active() {
                Some(a) => if old(self)@.has(a) {
                    old(self)@.with_pane(
                        a,
                        PaneView { font_scale: zoomed_out(old(self)@.panes[old(self)@.index(a)].font_scale), ..old(self)@.panes[old(self)@.index(a)] },
                    )
                } else {
                    old(self)@
                },
                None => old(self)@,
            }),
    {
        if let Some(a) = self.active_pane_id() {
            if let Some(i) = self.locate(a) {
                let ghost s = self@;
                let ghost before = self.panes@;
                self.panes[i].zoom_out();
                proof {
                    assert(self.panes@ == before.update(i as int, self.panes@[i as int]));
                    let np = PaneView { font_scale: zoomed_out(s.panes[i as int].font_scale), ..s.panes[i as int] };
                    assert(self@.panes =~= s.panes.update(i as int, np));
                    lemma_update_wf(s, self@, i as int, np);
                }
            }
        }
    }

    /// Restores the active pane's normal font scale, if the session has an active pane.
    pub fn zoom_normal_active(&mut self)
        requires
            old(self).wf(),
        ensures
            final(self).wf(),
            final(self)@ == (match old(self)@.active() {
                Some(a) => if old(self)@.has(a) {
                    old(self)@.with_pane(a, PaneView { font_scale: ZOOM_NORMAL, ..old(self)@.panes[old(self)@.index(a)] })
                } else {
                    old(self)@
                },
                None => old(self)@,
            }),
    {
        if let Some(a) = self.active_pane_id() {
            if let Some(i) = self.locate(a) {
                let ghost s = self@;
                let ghost before = self.panes@;
                self.panes[i].zoom_normal();
                proof {
                    assert(self.panes@ == before.update(i as int, self.panes@[i as int]));
                    let np = PaneView { font_scale: ZOOM_NORMAL, ..s.panes[i as int] };
                    assert(self@.panes =~= s.panes.update(i as int, np));
                    lemma_update_wf(s, self@, i as int, np);
                }
            }
        }
    }

    /// Switches every pane to `profile`.
    pub fn apply_profile(&mut self, profile: &Profile)
        requires
            old(self).wf(),
        ensures
            final(self).wf(),
            final(self)@ == (SessionState {
                panes: old(self)@.panes.map_values(|p: PaneView| PaneView { profile: *profile, ..p }),
                ..old(self)@
            }),
    {
        let n = self.panes.len();
        for i in 0..n
            invariant
                n == self.panes.len(),
                self@ == (SessionState { panes: self@.panes, ..old(self)@ }),
                self@.panes.len() == n,
                old(self)@.panes.len() == n,
                forall|j: int|
                    0 <= j < i ==> #[trigger] self.panes@[j]@ == (PaneView { profile: *profile, ..old(self).panes@[j]@ }),
                forall|j: int| i <= j < n ==> #[trigger] self.panes@[j]@ == old(self).panes@[j]@,
        {
            let ghost before = self.panes@;
            self.panes[i].apply_profile(profile);
            proof {
                assert(self.panes@ == before.update(i as int, self.panes@[i as int]));
                assert forall|j: int| 0 <= j < n && j != i implies #[trigger] self.panes@[j] == before[j] by {}
            }
        }
        proof {
            let s = old(self)@;
            assert(self@.panes =~= s.panes.map_values(|p: PaneView| PaneView { profile: *profile, ..p }));
            assert(self@.ids() =~= s.ids());
            assert forall|k: int| 0 <= k < self@.panes.len() implies (#[trigger] self@.panes[k]).pane_id.0 < self@.next_id by {
                assert(self@.panes[k].pane_id == s.panes[k].pane_id);
            }
        }
    }

    /// Switches the pane `id` to `profile`, if the session has it.
    pub fn apply_profile_to_pane(&mut self, id: PaneId, profile: &Profile)
        requires
            old(self).wf(),
        ensures
            final(self).wf(),
            final(self)@ == (if old(self)@.has(id) {
                old(self)@.with_pane(id, PaneView { profile: *profile, ..old(self)@.panes[old(self)@.index(id)] })
            } else {
                old(self)@
            }),
    {
        if let Some(i) = self.locate(id) {
            let ghost s = self@;
            let ghost before = self.panes@;
            self.panes[i].apply_profile(profile);
            proof {
                assert(self.panes@ == before.update(i as int, self.panes@[i as int]));
                let np = PaneView { profile: *profile, ..s.panes[i as int] };
                assert(self@.panes =~= s.panes.update(i as int, np));
                lemma_update_wf(s, self@, i as int, np);
            }
        }
    }

    /// The profile of the pane `id`, if the session has it.
    pub fn get_pane_profile(&self, id: PaneId) -> (r: Option<Profile>)
        requires
            self.wf(),
        ensures
            r == (if self@.has(id) {
                Some(self@.panes[self@.index(id)].profile)
            } else {
                None
            }),
    {
        match self.locate(id) {
            Some(i) => Some(self.panes[i].current_profile()),
            None => None,
        }
    }

    /// Whether some pane draws a translucent background.
    pub fn has_transparent_pane(&self) -> (b: bool)
        ensures
            b == exists|i: int| 0 <= i < self@.panes.len() && #[trigger] self@.panes[i].profile.background_transparency_percent > 0,
    {
        let n = self.panes.len();
        for i in 0..n
            invariant
                n == self.panes.len(),
                forall|j: int| 0 <= j < i ==> !(#[trigger] pane_views(self.panes@)[j].profile.background_transparency_percent > 0),
        {
            if self.panes[i].is_transparent() {
                proof {
                    assert(self@.panes[i as int].profile.background_transparency_percent > 0);
                }
                return true;
            }
        }
        false
    }

    /// Whether split handles are drawn wide.
    pub fn use_wide_handle(&self) -> (b: bool)
        ensures
            b == self@.use_wide_handle,
    {
        self.use_wide_handle
    }

    /// Draws split handles wide or narrow.
    pub fn set_wide_handle(&mut self, wide: bool)
        requires
            old(self).wf(),
        ensures
            final(self).wf(),
            final(self)@ == (SessionState { use_wide_handle: wide, ..old(self)@ }),
    {
        self.use_wide_handle = wide;
    }

    /// How pane title bars are shown.
    pub fn pane_title_style(&self) -> (style: PaneTitleStyle)
        ensures
            style == self@.pane_title_style,
    {
        self.pane_title_style
    }

    /// Whether a lone pane shows its title bar.
    pub fn pane_title_show_when_single(&self) -> (b: bool)
        ensures
            b == self@.show_when_single,
    {
        self.show_when_single
    }

    /// Shows or hides every pane's title bar for the title style and number of panes.
    pub fn update_pane_headers_visibility(&mut self)
        requires
            old(self).wf(),
        ensures
            final(self).wf(),
            final(self)@ == (SessionState {
                panes: with_headers(old(self)@.panes, old(self)@.headers_shown()),
                ..old(self)@
            }),
    {
        self.rebuild_projection();
    }

    /// Changes the title style and whether a lone pane shows its title bar, and shows or
    /// hides every pane's title bar accordingly.
    pub fn set_pane_title_settings(&mut self, style: PaneTitleStyle, show_when_single: bool)
        requires
            old(self).wf(),
        ensures
            final(self).wf(),
            final(self)@ == (SessionState {
                panes: with_headers(
                    old(self)@.panes,
                    pane_header_visible_spec(style, old(self)@.panes.len() as int, show_when_single),
                ),
                pane_title_style: style,
                show_when_single: show_when_single,
                ..old(self)@
            }),
    {
        self.pane_title_style = style;
        self.show_when_single = show_when_single;
        self.rebuild_projection();
    }

    /// The number of terminals a title counts: the number of panes, at least one.
    pub fn terminal_count(&self) -> (n: usize)
        ensures
            n == (if self@.panes.len() == 0 {
                1
            } else {
                self@.panes.len()
            }),
    {
        if self.panes.len() == 0 {
            1
        } else {
            self.panes.len()
        }
    }

    /// The number of the active terminal that a title shows: its rank among the pane
    /// identifiers in increasing order, counting from one; one when no pane is active.
    pub fn terminal_number(&self) -> (n: usize)
        requires
            self.wf(),
        ensures
            n == (match self@.active() {
                Some(a) => if self@.has(a) {
                    count_below(self@.ids(), a) + 1
                } else {
                    1
                },
                None => 1,
            }),
    {
        let a = match self.active_pane_id() {
            Some(a) => a,
            None => {
                return 1;
            },
        };
        if !self.has_pane(a) {
            return 1;
        }
        let mut below: usize = 0;
        let n = self.panes.len();
        for i in 0..n
            invariant
                n == self.panes.len(),
                below == count_below(ids_of(pane_views(self.panes@)).take(i as int), a),
                below <= i,
        {
            let id = self.panes[i].pane_id();
            proof {
                let v = ids_of(pane_views(self.panes@));
                assert(v.take(i as int + 1).drop_last() =~= v.take(i as int));
                assert(v.take(i as int + 1).last() == v[i as int]);
            }
            if id.0 < a.0 {
                below = below + 1;
            }
        }
        proof {
            assert(ids_of(pane_views(self.panes@)).take(n as int) =~= self@.ids());
            let k = self@.index(a);
            assert(self@.ids().contains(a));
            assert(self@.ids()[k] == a);
            assert(count_below(self@.ids(), a) < self@.ids().len()) by {
                lemma_count_below_strict(self@.ids(), a, k);
            }
        }
        below + 1
    }
    /// Records the process started in the pane `id`, if the session has it (`true`).
    pub fn pane_child_spawned(&mut self, id: PaneId, pid: i32) -> (found: bool)
        requires
            old(self).wf(),
        ensures
            final(self).wf(),
            found == old(self)@.has(id),
            final(self)@ == (if found {
                old(self)@.with_pane(id, PaneView { child_pid: Some(pid), ..old(self)@.panes[old(self)@.index(id)] })
            } else {
                old(self)@
            }),
    {
        match self.locate(id) {
            None => false,
            Some(i) => {
                let ghost s = self@;
                let ghost before = self.panes@;
                self.panes[i].child_spawned(pid);
                proof {
                    assert(self.panes@ == before.update(i as int, self.panes@[i as int]));
                    let np = PaneView { child_pid: Some(pid), ..s.panes[i as int] };
                    assert(self@.panes =~= s.panes.update(i as int, np));
                    lemma_update_wf(s, self@, i as int, np);
                }
                true
            },
        }
    }

    /// Sets the raw title of the pane `id`, if the session has it (`true`).
    pub fn set_pane_title(&mut self, id: PaneId, title: &str) -> (found: bool)
        requires
            old(self).wf(),
        ensures
            final(self).wf(),
            found == old(self)@.has(id),
            final(self)@ == (if found {
                old(self)@.with_pane(id, PaneView { raw_title: title@, ..old(self)@.panes[old(self)@.index(id)] })
            } else {
                old(self)@
            }),
    {
        match self.locate(id) {
            None => false,
            Some(i) => {
                let ghost s = self@;
                let ghost before = self.panes@;
                self.panes[i].set_title(title);
                proof {
                    assert(self.panes@ == before.update(i as int, self.panes@[i as int]));
                    let np = PaneView { raw_title: title@, ..s.panes[i as int] };
                    assert(self@.panes =~= s.panes.update(i as int, np));
                    lemma_update_wf(s, self@, i as int, np);
                }
                true
            },
        }
    }

    /// The process of the pane `id` exited: returns what the pane does (see
    /// `TerminalPane::child_exited`), or none when the session has no such pane.
    pub fn pane_child_exited(&mut self, id: PaneId) -> (r: Option<ExitReaction>)
        requires
            old(self).wf(),
        ensures
            final(self).wf(),
            r is Some == old(self)@.has(id),
            r matches Some(reaction) ==> {
                let p = old(self)@.panes[old(self)@.index(id)];
                &&& reaction == (if p.closing {
                    ExitReaction::Ignore
                } else {
                    match p.profile.exit_action {
                        ExitActionPreference::Close => ExitReaction::Close,
                        ExitActionPreference::Restart => ExitReaction::Restart,
                        ExitActionPreference::Hold => ExitReaction::Hold,
                    }
                })
                &&& final(self)@ == old(self)@.with_pane(
                    id,
                    PaneView { child_pid: None, closing: p.closing || reaction == ExitReaction::Close, ..p },
                )
            },
            r is None ==> final(self)@ == old(self)@,
    {
        match self.locate(id) {
            None => None,
            Some(i) => {
                let ghost s = self@;
                let ghost before = self.panes@;
                let reaction = self.panes[i].child_exited();
                proof {
                    assert(self.panes@ == before.update(i as int, self.panes@[i as int]));
                    let p = s.panes[i as int];
                    let np = PaneView { child_pid: None, closing: p.closing || reaction == ExitReaction::Close, ..p };
                    assert(self@.panes =~= s.panes.update(i as int, np));
                    lemma_update_wf(s, self@, i as int, np);
                }
                Some(reaction)
            },
        }
    }

    /// Shows the drop indicator of the pane `id` for a dock position and the pane's size,
    /// and returns where and how large it is drawn; none when the session has no such pane.
    pub fn show_pane_drop_indicator(&mut self, id: PaneId, position: DockPosition, width: i32, height: i32) -> (r:
        Option<DropIndicatorLayout>)
        requires
            old(self).wf(),
        ensures
            final(self).wf(),
            r is Some == old(self)@.has(id),
            r matches Some(layout) ==> layout == drop_indicator_layout_spec(position, width, height) && final(self)@
                == old(self)@.with_pane(
                id,
                PaneView { drop_indicator: Some(position), ..old(self)@.panes[old(self)@.index(id)] },
            ),
            r is None ==> final(self)@ == old(self)@,
    {
        match self.locate(id) {
            None => None,
            Some(i) => {
                let ghost s = self@;
                let ghost before = self.panes@;
                let layout = self.panes[i].show_drop_indicator(position, width, height);
                proof {
                    assert(self.panes@ == before.update(i as int, self.panes@[i as int]));
                    let np = PaneView { drop_indicator: Some(position), ..s.panes[i as int] };
                    assert(self@.panes =~= s.panes.update(i as int, np));
                    lemma_update_wf(s, self@, i as int, np);
                }
                Some(layout)
            },
        }
    }

    /// Hides the drop indicator of the pane `id`, if the session has it (`true`).
    pub fn hide_pane_drop_indicator(&mut self, id: PaneId) -> (found: bool)
        requires
            old(self).wf(),
        ensures
            final(self).wf(),
            found == old(self)@.has(id),
            final(self)@ == (if found {
                old(self)@.with_pane(id, PaneView { drop_indicator: None, ..old(self)@.panes[old(self)@.index(id)] })
            } else {
                old(self)@
            }),
    {
        match self.locate(id) {
            None => false,
            Some(i) => {
                let ghost s = self@;
                let ghost before = self.panes@;
                self.panes[i].hide_drop_indicator();
                proof {
                    assert(self.panes@ == before.update(i as int, self.panes@[i as int]));
                    let np = PaneView { drop_indicator: None, ..s.panes[i as int] };
                    assert(self@.panes =~= s.panes.update(i as int, np));
                    lemma_update_wf(s, self@, i as int, np);
                }
                true
            },
        }
    }
}

} // verus!
