use vstd::prelude::*;

use crate::types::PaneId;

verus! {

/// Identifies the session a drag started from, as the window layer names its widgets.
#[derive(Clone, Copy, Debug, PartialEq, Eq, Structural)]
pub struct SessionKey(pub u64);

/// The pane being dragged and the session it came from.
#[derive(Clone, Copy, Debug, PartialEq, Eq, Structural)]
pub struct ActivePaneDrag {
    pub pane_id: PaneId,
    pub source_session_widget: SessionKey,
}

/// The drag under way, if any.
pub fn get_active_pane_drag(slot: &Option<ActivePaneDrag>) -> (r: Option<ActivePaneDrag>)
    ensures
        r == *slot,
{
    *slot
}

/// Ends the drag under way and returns it, if any.
pub fn take_active_pane_drag(slot: &mut Option<ActivePaneDrag>) -> (r: Option<ActivePaneDrag>)
    ensures
        r == *old(slot),
        *final(slot) == None::<ActivePaneDrag>,
{
    let r = *slot;
    *slot = None;
    r
}

/// Records the drag under way, or that there is none.
pub fn set_active_pane_drag(slot: &mut Option<ActivePaneDrag>, drag: Option<ActivePaneDrag>)
    ensures
        *final(slot) == drag,
{
    *slot = drag;
}

/// Forgets the drag under way.
pub fn clear_active_pane_drag(slot: &mut Option<ActivePaneDrag>)
    ensures
        *final(slot) == None::<ActivePaneDrag>,
{
    *slot = None;
}

/// Whether a drag of a pane may begin: when the setting asks for a modifier, only with
/// Alt, Meta or Super held.
pub fn drag_may_begin(require_alt: bool, alt: bool, meta: bool, super_key: bool) -> (b: bool)
    ensures
        b == (!require_alt || alt || meta || super_key),
{
    !require_alt || alt || meta || super_key
}

/// Whether a pane accepts a dropped pane: only one other than itself.
pub fn drop_accepted(src: PaneId, dest: PaneId) -> (b: bool)
    ensures
        b == (src != dest),
{
    src != dest
}

/// Whether a pane under the pointer shows where a dragged pane would dock: not while the
/// pane being dragged is that pane itself.
pub fn motion_shows_indicator(active: Option<ActivePaneDrag>, dest: PaneId) -> (b: bool)
    ensures
        b == !(active matches Some(d) && d.pane_id == dest),
{
    match active {
        Some(d) => d.pane_id != dest,
        None => true,
    }
}

} // verus!
