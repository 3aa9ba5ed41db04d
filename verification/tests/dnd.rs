use tilix::dnd::{
    clear_active_pane_drag, drag_may_begin, drop_accepted, get_active_pane_drag, motion_shows_indicator,
    set_active_pane_drag, take_active_pane_drag, ActivePaneDrag, SessionKey,
};
use tilix::session_view::SessionView;
use tilix::types::PaneId;

#[test]
fn test_phase13_dnd_active_drag_lifecycle_preserves_running_pane() {
    let mut slot: Option<ActivePaneDrag> = None;
    let session = SessionView::new();
    let p1 = session.active_pane_id().expect("p1 must exist");

    let active = ActivePaneDrag { pane_id: p1, source_session_widget: SessionKey(0) };
    set_active_pane_drag(&mut slot, Some(active));

    let drag_opt = get_active_pane_drag(&slot);
    assert!(drag_opt.is_some());
    assert_eq!(drag_opt.unwrap().pane_id, p1);

    clear_active_pane_drag(&mut slot);
    assert!(get_active_pane_drag(&slot).is_none());

    assert_eq!(session.pane_count(), 1, "Pane must still be part of session");
    assert_eq!(session.active_pane_id(), Some(p1));
}

#[test]
fn take_returns_the_drag_and_clears_it() {
    let mut slot = None;
    let drag = ActivePaneDrag { pane_id: PaneId(3), source_session_widget: SessionKey(9) };
    set_active_pane_drag(&mut slot, Some(drag));
    assert_eq!(take_active_pane_drag(&mut slot), Some(drag));
    assert_eq!(take_active_pane_drag(&mut slot), None);
}

#[test]
fn drag_gating_and_drop_rules() {
    assert!(drag_may_begin(false, false, false, false));
    assert!(!drag_may_begin(true, false, false, false));
    assert!(drag_may_begin(true, true, false, false));
    assert!(drag_may_begin(true, false, true, false));
    assert!(drag_may_begin(true, false, false, true));
    assert!(drop_accepted(PaneId(1), PaneId(2)));
    assert!(!drop_accepted(PaneId(2), PaneId(2)));
    let drag = ActivePaneDrag { pane_id: PaneId(2), source_session_widget: SessionKey(1) };
    assert!(!motion_shows_indicator(Some(drag), PaneId(2)));
    assert!(motion_shows_indicator(Some(drag), PaneId(3)));
    assert!(motion_shows_indicator(None, PaneId(3)));
}
