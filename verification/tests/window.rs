use tilix::quake::{quake_handle_action, quake_present, quake_toggle, QuakeToggle};
use tilix::session_view::{SessionAction, SessionView};
use tilix::types::{PaneId, SplitOrientation, WindowStyle};
use tilix::window::{
    close_pane_decision, close_window_after_tab_close, detach_allowed, handle_session_action, header_bar_visible,
    switch_tab_index, tab_next, tab_prev, template_file_name, toggled_sync_state, total_pane_count,
    window_title_indices, ClosePaneDecision, SessionIdAllocator,
};

#[test]
fn tab_navigation_wraps() {
    assert_eq!(tab_next(0, 3), Some(1));
    assert_eq!(tab_next(2, 3), Some(0));
    assert_eq!(tab_prev(0, 3), Some(2));
    assert_eq!(tab_prev(2, 3), Some(1));
    assert_eq!(tab_next(0, 1), None);
    assert_eq!(tab_prev(0, 1), None);
    for pos in 0..5 {
        assert_eq!(tab_prev(tab_next(pos, 5).unwrap(), 5), Some(pos));
    }
}

#[test]
fn switch_tab_needs_existing_tab() {
    assert_eq!(switch_tab_index(0, 3), Some(0));
    assert_eq!(switch_tab_index(2, 3), Some(2));
    assert_eq!(switch_tab_index(3, 3), None);
    assert_eq!(switch_tab_index(8, 0), None);
}

#[test]
fn close_pane_action_decisions() {
    assert_eq!(close_pane_decision(false, Some(3)), ClosePaneDecision::Nothing);
    assert_eq!(close_pane_decision(true, Some(2)), ClosePaneDecision::CloseActivePane);
    assert_eq!(close_pane_decision(true, Some(1)), ClosePaneDecision::CloseTab);
    assert_eq!(close_pane_decision(true, None), ClosePaneDecision::CloseWindow);
}

#[test]
fn window_level_decisions() {
    assert_eq!(total_pane_count(&vec![2, 3, 1]), 6);
    assert_eq!(total_pane_count(&Vec::new()), 0);
    assert!(!detach_allowed(1));
    assert!(detach_allowed(2));
    assert!(close_window_after_tab_close(0));
    assert!(!close_window_after_tab_close(1));
    assert!(header_bar_visible(WindowStyle::Normal));
    assert!(!header_bar_visible(WindowStyle::HideToolbar));
    assert_eq!(window_title_indices(Some(2), 4), (3, 4));
    assert_eq!(window_title_indices(None, 0), (1, 1));
    assert!(toggled_sync_state(false));
    assert!(!toggled_sync_state(true));
}

#[test]
fn template_names_replace_separators() {
    assert_eq!(template_file_name("my session/a\\b"), "my_session_a_b.json");
    assert_eq!(template_file_name(""), ".json");
    assert_eq!(template_file_name("Tilix"), "Tilix.json");
}

#[test]
fn session_ids_are_a_hundred_apart() {
    let mut alloc = SessionIdAllocator::new();
    assert!(alloc.can_allocate());
    assert_eq!(alloc.allocate(), 1);
    assert_eq!(alloc.allocate(), 101);
    assert_eq!(alloc.allocate(), 201);
}

#[test]
fn session_actions_in_a_window() {
    let mut session = SessionView::new();
    assert!(!handle_session_action(&mut session, SessionAction::Split(PaneId(1), SplitOrientation::Horizontal)));
    assert_eq!(session.pane_count(), 2);
    assert_eq!(session.active_pane_id(), Some(PaneId(2)));
    assert!(!handle_session_action(&mut session, SessionAction::Focus(PaneId(1))));
    assert_eq!(session.active_pane_id(), Some(PaneId(1)));
    assert!(!handle_session_action(&mut session, SessionAction::Close(PaneId(2))));
    assert!(handle_session_action(&mut session, SessionAction::Close(PaneId(1))));
    assert!(session.is_empty());
}

#[test]
fn quake_window_toggle_and_actions() {
    assert_eq!(quake_toggle(true, true), QuakeToggle::Hide);
    assert_eq!(quake_toggle(true, false), QuakeToggle::Present);
    assert_eq!(quake_toggle(false, true), QuakeToggle::Present);

    let mut session = SessionView::with_id(PaneId(5));
    assert!(!quake_handle_action(&mut session, SessionAction::Split(PaneId(5), SplitOrientation::Vertical)));
    assert_eq!(session.pane_count(), 2);
    assert!(!quake_handle_action(&mut session, SessionAction::Close(PaneId(6))));
    assert_eq!(session.pane_count(), 1);
    // Closing the last pane hides the window and starts the session over.
    assert!(quake_handle_action(&mut session, SessionAction::Close(PaneId(5))));
    assert_eq!(session.pane_ids(), vec![PaneId(1)]);
    quake_present(&mut session);
    assert!(session.pane(PaneId(1)).unwrap().is_active());
}
