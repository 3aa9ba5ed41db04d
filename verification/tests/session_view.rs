use tilix::layout::LayoutNode;
use tilix::session_view::{pane_header_visible, separator_double_click, DockOutcome, SessionView};
use tilix::terminal_pane::TerminalPane;
use tilix::types::{AppConfig, DockPosition, PaneId, PaneTitleStyle, Profile, SplitOrientation};

fn all_headers(session: &SessionView) -> Vec<bool> {
    session
        .pane_ids()
        .iter()
        .map(|id| session.pane(*id).unwrap().is_header_visible())
        .collect()
}

#[test]
fn test_session_view_lifecycle_and_focus() {
    // Sub-test 1: Basic lifecycle and reset
    {
        let mut session = SessionView::new();
        assert_eq!(session.pane_count(), 1);
        let active_id = session.active_pane_id().unwrap();

        session.split_active(SplitOrientation::Horizontal);
        assert_eq!(session.pane_count(), 2);

        session.close_pane(active_id);
        assert_eq!(session.pane_count(), 1);

        session.reset();
        assert_eq!(session.pane_count(), 1);

        session.close();
        assert!(session.is_empty());
    }

    // Sub-test 2: Closing another pane does not take focus from the current pane
    {
        let mut session = SessionView::new();
        assert_eq!(session.pane_count(), 1);
        let p1 = session.active_pane_id().unwrap();

        session.split_active(SplitOrientation::Horizontal);
        let p2 = session.active_pane_id().unwrap();
        assert_ne!(p1, p2);

        session.split_active(SplitOrientation::Vertical);
        let p3 = session.active_pane_id().unwrap();
        assert_ne!(p2, p3);

        session.set_active_pane(p1);
        assert_eq!(session.active_pane_id(), Some(p1));

        session.close_pane(p2);
        assert_eq!(session.pane_count(), 2);
        assert_eq!(session.active_pane_id(), Some(p1));

        session.close_pane(p3);
        assert_eq!(session.pane_count(), 1);
        assert_eq!(session.active_pane_id(), Some(p1));

        session.close();
    }

    // Sub-test 3: Closing the active pane moves focus to the previous pane
    {
        let mut session = SessionView::new();
        let p1 = session.active_pane_id().unwrap();

        session.split_active(SplitOrientation::Horizontal);
        let p2 = session.active_pane_id().unwrap();

        session.split_active(SplitOrientation::Vertical);
        let p3 = session.active_pane_id().unwrap();

        assert_eq!(session.active_pane_id(), Some(p3));

        session.close_pane(p3);
        assert_eq!(session.pane_count(), 2);
        assert_eq!(session.active_pane_id(), Some(p2));

        session.close_pane(p2);
        assert_eq!(session.pane_count(), 1);
        assert_eq!(session.active_pane_id(), Some(p1));

        session.close();
    }

    // Sub-test 4: Closing the active pane follows the focus history
    {
        let mut session = SessionView::new();
        let p1 = session.active_pane_id().unwrap();

        session.split_active(SplitOrientation::Horizontal);
        let p2 = session.active_pane_id().unwrap();

        session.split_active(SplitOrientation::Vertical);
        let p3 = session.active_pane_id().unwrap();

        session.set_active_pane(p1);
        assert_eq!(session.active_pane_id(), Some(p1));

        session.close_pane(p1);
        assert_eq!(session.pane_count(), 2);
        assert_eq!(session.active_pane_id(), Some(p3));

        session.close_pane(p3);
        assert_eq!(session.pane_count(), 1);
        assert_eq!(session.active_pane_id(), Some(p2));

        session.close();
    }

    // Sub-test 6: Split handle width toggle
    {
        let mut session = SessionView::new();
        session.split_active(SplitOrientation::Horizontal);
        assert_eq!(session.pane_count(), 2);

        session.set_wide_handle(true);
        assert!(session.use_wide_handle());

        session.set_wide_handle(false);
        assert!(!session.use_wide_handle());

        session.close();
    }
}

#[test]
fn test_session_view_set_wide_handle() {
    let mut session = SessionView::new();
    session.split_active(SplitOrientation::Horizontal);
    assert_eq!(session.pane_count(), 2);

    session.set_wide_handle(true);
    assert!(session.use_wide_handle());

    session.set_wide_handle(false);
    assert!(!session.use_wide_handle());

    session.close();
}

#[test]
fn test_session_view_pane_title_none_hides_all_headers() {
    let mut session = SessionView::new();
    session.split_active(SplitOrientation::Horizontal);
    assert_eq!(session.pane_count(), 2);

    for visible in all_headers(&session) {
        assert!(visible);
    }

    session.set_pane_title_settings(PaneTitleStyle::Hidden, true);
    assert_eq!(session.pane_title_style(), PaneTitleStyle::Hidden);
    for visible in all_headers(&session) {
        assert!(!visible);
    }

    session.set_pane_title_settings(PaneTitleStyle::Normal, true);
    assert_eq!(session.pane_title_style(), PaneTitleStyle::Normal);
    for visible in all_headers(&session) {
        assert!(visible);
    }

    session.close();
}

#[test]
fn test_session_view_show_when_single_false_dynamic_split() {
    let mut session = SessionView::new();
    assert_eq!(session.pane_count(), 1);

    session.set_pane_title_settings(PaneTitleStyle::Normal, false);
    assert!(!session.pane_title_show_when_single());
    for visible in all_headers(&session) {
        assert!(!visible);
    }

    session.split_active(SplitOrientation::Horizontal);
    assert_eq!(session.pane_count(), 2);
    for visible in all_headers(&session) {
        assert!(visible);
    }

    session.close_active();
    assert_eq!(session.pane_count(), 1);
    for visible in all_headers(&session) {
        assert!(!visible);
    }

    session.set_pane_title_settings(PaneTitleStyle::Normal, true);
    assert!(session.pane_title_show_when_single());
    for visible in all_headers(&session) {
        assert!(visible);
    }

    session.close();
}

#[test]
fn test_session_view_dock_intra_session() {
    let mut session = SessionView::new();
    let p1 = session.active_pane_id().unwrap();
    session.split_active(SplitOrientation::Horizontal);
    assert_eq!(session.pane_count(), 2);
    let p2 = session.active_pane_id().unwrap();

    session.dock_pane(p1, p2, DockPosition::Bottom);
    assert_eq!(session.pane_count(), 2);
    assert_eq!(session.active_pane_id(), Some(p1));
    assert_eq!(session.pane_ids(), vec![p2, p1]);

    session.close();
}

#[test]
fn test_session_view_transfer_pane() {
    let mut session_a = SessionView::with_id(PaneId(1));
    session_a.split_active(SplitOrientation::Horizontal);
    assert_eq!(session_a.pane_count(), 2);
    let p2 = session_a.active_pane_id().unwrap();

    let mut session_b = SessionView::with_id(PaneId(10));
    assert_eq!(session_b.pane_count(), 1);

    let pane_to_transfer = session_a.remove_pane_for_transfer(p2).unwrap();
    session_a.rebuild_projection();
    assert_eq!(session_a.pane_count(), 1);

    assert!(session_b.adopt_pane(pane_to_transfer, PaneId(10), DockPosition::Right).is_none());
    assert_eq!(session_b.pane_count(), 2);
    assert_eq!(session_b.active_pane_id(), Some(p2));
    assert_eq!(session_b.pane_ids(), vec![PaneId(10), p2]);

    session_a.close();
    session_b.close();
}

#[test]
fn test_session_view_sync_input_broadcasting_no_recursion() {
    let mut session = SessionView::new();
    let p1 = session.active_pane_id().unwrap();
    session.split_active(SplitOrientation::Horizontal);
    let p2 = session.pane_ids().into_iter().find(|&k| k != p1).unwrap();

    session.set_sync_input_enabled(true);
    assert!(session.sync_input_enabled());

    assert!(session.pane(p1).unwrap().is_sync_enabled());
    assert!(session.pane(p2).unwrap().is_sync_enabled());

    // Input typed in pane 1 is copied to pane 2 only.
    let targets = session.begin_broadcast(p1).unwrap();
    assert_eq!(targets, vec![p2]);

    // Input fed to pane 2 while copying is not copied again.
    assert!(session.begin_broadcast(p2).is_none());
    session.end_broadcast();

    // With synchronisation off nothing is copied.
    session.set_sync_input_enabled(false);
    assert!(session.begin_broadcast(p1).is_none());

    session.close();
}

#[test]
fn test_phase13_session_view_active_zoom_dispatch() {
    let mut session = SessionView::new();
    assert_eq!(session.pane_count(), 1);
    let p1 = session.active_pane_id().expect("p1 must exist");

    session.split_active(SplitOrientation::Horizontal);
    assert_eq!(session.pane_count(), 2);
    let p2 = session.active_pane_id().expect("p2 must exist");
    assert_ne!(p1, p2);

    let scale = |s: &SessionView, id: PaneId| s.pane(id).unwrap().font_scale();
    assert_eq!(scale(&session, p1), 10);
    assert_eq!(scale(&session, p2), 10);

    session.zoom_in_active();
    assert_eq!(scale(&session, p2), 11);
    assert_eq!(scale(&session, p1), 10);

    session.set_active_pane(p1);
    assert_eq!(session.active_pane_id(), Some(p1));

    session.zoom_out_active();
    assert_eq!(scale(&session, p1), 9);
    assert_eq!(scale(&session, p2), 11);

    session.zoom_normal_active();
    assert_eq!(scale(&session, p1), 10);
    assert_eq!(scale(&session, p2), 11);

    session.set_active_pane(p2);
    session.zoom_normal_active();
    assert_eq!(scale(&session, p2), 10);

    session.close();
}

#[test]
fn test_phase17_session_view_has_transparent_pane() {
    let mut session = SessionView::new();
    let mut opaque_prof = Profile::default();
    opaque_prof.background_transparency_percent = 0;

    let mut trans_prof = Profile::default();
    trans_prof.background_transparency_percent = 50;

    session.apply_profile(&opaque_prof);
    assert!(!session.has_transparent_pane(), "Session with only opaque pane must return false");

    session.split_active(SplitOrientation::Horizontal);
    assert_eq!(session.pane_count(), 2);

    let active_id = session.active_pane_id().unwrap();
    session.apply_profile_to_pane(active_id, &trans_prof);
    assert!(session.has_transparent_pane(), "Session with a transparent split pane must return true");

    session.apply_profile(&opaque_prof);
    assert!(!session.has_transparent_pane(), "Session with all opaque panes must return false");

    session.close();
}

#[test]
fn test_integration_pane_overlay_and_session_view_docking() {
    let mut pane = TerminalPane::new(PaneId(10));
    assert!(!pane.is_drop_indicator_visible());

    for position in [DockPosition::Top, DockPosition::Bottom, DockPosition::Left, DockPosition::Right, DockPosition::Center] {
        pane.show_drop_indicator(position, 400, 300);
        assert!(pane.is_drop_indicator_visible());
    }

    pane.hide_drop_indicator();
    assert!(!pane.is_drop_indicator_visible());

    let mut session = SessionView::new();
    assert_eq!(session.pane_count(), 1);
    let p1 = session.active_pane_id().unwrap();

    session.split_active(SplitOrientation::Horizontal);
    assert_eq!(session.pane_count(), 2);
    let p2 = session.active_pane_id().unwrap();
    assert_ne!(p1, p2);

    session.dock_pane(p2, p1, DockPosition::Bottom);
    assert_eq!(session.pane_count(), 2);
    assert_eq!(session.active_pane_id(), Some(p2));

    session.dock_pane(p2, p1, DockPosition::Center);
    assert_eq!(session.pane_count(), 2);

    session.close();
}

#[test]
fn test_integration_cross_session_transfer_zero_process_interruption() {
    let mut session_a = SessionView::new();
    let p1 = session_a.active_pane_id().unwrap();
    session_a.split_active(SplitOrientation::Horizontal);
    let p2 = session_a.active_pane_id().unwrap();
    assert_eq!(session_a.pane_count(), 2);

    let mut session_b = SessionView::with_id(PaneId(100));
    let p3 = session_b.active_pane_id().unwrap();
    assert_eq!(session_b.pane_count(), 1);

    let transferred_pane = session_a.remove_pane_for_transfer(p2).expect("Pane 2 must be extractable from Session A");

    assert_eq!(session_a.pane_count(), 1);
    assert_eq!(session_a.active_pane_id(), Some(p1));
    assert_eq!(transferred_pane.pane_id(), p2);

    assert!(session_b.adopt_pane(transferred_pane, p3, DockPosition::Right).is_none());

    assert_eq!(session_b.pane_count(), 2);
    assert!(session_b.has_pane(p3));
    assert!(session_b.has_pane(p2));
    assert_eq!(session_b.active_pane_id(), Some(p2));

    session_a.rebuild_projection();
    session_b.rebuild_projection();

    session_a.close();
    session_b.close();
}

#[test]
fn test_integration_session_view_with_existing_pane_constructor() {
    let pane = TerminalPane::new(PaneId(42));

    let mut session = SessionView::with_existing_pane(pane, &AppConfig::default());
    assert_eq!(session.pane_count(), 1);
    assert_eq!(session.active_pane_id(), Some(PaneId(42)));
    assert!(session.has_pane(PaneId(42)));

    session.split_active(SplitOrientation::Vertical);
    assert_eq!(session.pane_count(), 2);

    session.close();
}

#[test]
fn test_pane_header_visibility_logic_simulation() {
    assert!(pane_header_visible(PaneTitleStyle::Normal, 1, true));
    assert!(!pane_header_visible(PaneTitleStyle::Normal, 1, false));

    assert!(pane_header_visible(PaneTitleStyle::Normal, 2, false));
    assert!(pane_header_visible(PaneTitleStyle::Normal, 3, false));
    assert!(pane_header_visible(PaneTitleStyle::Normal, 4, false));

    assert!(pane_header_visible(PaneTitleStyle::Normal, 2, true));

    assert!(!pane_header_visible(PaneTitleStyle::Hidden, 1, true));
    assert!(!pane_header_visible(PaneTitleStyle::Hidden, 1, false));
    assert!(!pane_header_visible(PaneTitleStyle::Hidden, 2, true));
    assert!(!pane_header_visible(PaneTitleStyle::Hidden, 2, false));
    assert!(!pane_header_visible(PaneTitleStyle::Hidden, 5, true));
    assert!(!pane_header_visible(PaneTitleStyle::Hidden, 5, false));
}

#[test]
fn session_sync_broadcast_skips_panes_with_sync_off() {
    let mut session = SessionView::new();
    let p2 = session.split_active(SplitOrientation::Horizontal).unwrap();
    let p3 = session.split_active(SplitOrientation::Vertical).unwrap();

    assert!(!session.sync_input_enabled());
    assert!(session.toggle_sync_input());
    assert!(session.sync_input_enabled());

    assert!(session.set_pane_sync_enabled(p3, false));
    assert!(!session.pane(p3).unwrap().is_sync_enabled());

    assert_eq!(session.begin_broadcast(PaneId(1)), Some(vec![p2]));
    session.end_broadcast();
    // A sender with synchronisation off copies nothing.
    assert_eq!(session.begin_broadcast(p3), None);
}

#[test]
fn split_places_new_pane_after_target_with_next_id() {
    let mut session = SessionView::new();
    let p2 = session.split_pane(PaneId(1), SplitOrientation::Horizontal).unwrap();
    assert_eq!(p2, PaneId(2));
    let p3 = session.split_pane(PaneId(1), SplitOrientation::Vertical).unwrap();
    assert_eq!(p3, PaneId(3));
    assert_eq!(session.pane_ids(), vec![PaneId(1), PaneId(3), PaneId(2)]);
    assert_eq!(session.split_pane(PaneId(99), SplitOrientation::Vertical), None);
    assert_eq!(session.pane_count(), 3);
    // Only the active pane is flagged active.
    assert!(session.pane(p3).unwrap().is_active());
    assert!(!session.pane(p2).unwrap().is_active());
}

#[test]
fn close_active_pane_falls_back_to_first() {
    let mut session = SessionView::new();
    let p2 = session.split_active(SplitOrientation::Horizontal).unwrap();
    assert_eq!(session.active_pane_id(), Some(p2));
    assert!(session.close_pane(p2));
    assert_eq!(session.active_pane_id(), Some(PaneId(1)));
    assert_eq!(session.pane_ids(), vec![PaneId(1)]);
    assert!(!session.close_pane(p2));
}

#[test]
fn closing_last_pane_empties_session() {
    let mut session = SessionView::new();
    assert!(session.close_pane(PaneId(1)));
    assert!(session.is_empty());
    assert_eq!(session.active_pane_id(), None);
    assert_eq!(session.split_active(SplitOrientation::Horizontal), None);
}

#[test]
fn dock_outcomes() {
    let mut session = SessionView::new();
    let p2 = session.split_active(SplitOrientation::Horizontal).unwrap();
    let p3 = session.split_active(SplitOrientation::Horizontal).unwrap();
    assert_eq!(session.pane_ids(), vec![PaneId(1), p2, p3]);
    assert_eq!(session.dock_pane(PaneId(77), p2, DockPosition::Left), DockOutcome::FromOtherSession);
    assert_eq!(session.dock_pane(p2, p2, DockPosition::Left), DockOutcome::Refused);
    assert_eq!(session.dock_pane(p2, PaneId(77), DockPosition::Left), DockOutcome::Refused);
    assert_eq!(session.dock_pane(p3, PaneId(1), DockPosition::Top), DockOutcome::Docked);
    assert_eq!(session.pane_ids(), vec![p3, PaneId(1), p2]);
    assert_eq!(session.dock_pane(p3, p2, DockPosition::Center), DockOutcome::Docked);
    assert_eq!(session.pane_ids(), vec![p2, PaneId(1), p3]);
    assert_eq!(session.active_pane_id(), Some(p3));
}

#[test]
fn swap_panes_exchanges_places() {
    let mut session = SessionView::new();
    let p2 = session.split_active(SplitOrientation::Horizontal).unwrap();
    assert!(session.swap_panes(PaneId(1), p2));
    assert_eq!(session.pane_ids(), vec![p2, PaneId(1)]);
    assert!(!session.swap_panes(PaneId(1), PaneId(50)));
    assert_eq!(session.active_pane_id(), Some(p2));
}

#[test]
fn adopt_refuses_duplicate_identifiers() {
    let mut session = SessionView::new();
    let twin = TerminalPane::new(PaneId(1));
    let back = session.adopt_pane(twin, PaneId(1), DockPosition::Right);
    assert_eq!(back.map(|p| p.pane_id()), Some(PaneId(1)));
    assert_eq!(session.pane_count(), 1);
    // An adopted pane with a large identifier raises the next identifier.
    assert!(session.adopt_pane(TerminalPane::new(PaneId(40)), PaneId(1), DockPosition::Left).is_none());
    assert_eq!(session.pane_ids(), vec![PaneId(40), PaneId(1)]);
    assert_eq!(session.split_active(SplitOrientation::Horizontal), Some(PaneId(41)));
}

#[test]
fn focus_events_report_changes() {
    let mut session = SessionView::new();
    let p2 = session.split_active(SplitOrientation::Horizontal).unwrap();
    assert!(!session.pane_focused(p2));
    assert!(session.pane_focused(PaneId(1)));
    assert_eq!(session.active_pane_id(), Some(PaneId(1)));
    assert!(!session.pane_focused(PaneId(9)));
}

#[test]
fn terminal_number_ranks_active_pane() {
    let mut session = SessionView::with_id(PaneId(5));
    assert_eq!(session.terminal_number(), 1);
    assert_eq!(session.terminal_count(), 1);
    session.adopt_pane(TerminalPane::new(PaneId(2)), PaneId(5), DockPosition::Right);
    assert_eq!(session.active_pane_id(), Some(PaneId(2)));
    assert_eq!(session.terminal_number(), 1);
    session.set_active_pane(PaneId(5));
    assert_eq!(session.terminal_number(), 2);
    assert_eq!(session.terminal_count(), 2);
    session.close();
    assert_eq!(session.terminal_count(), 1);
}

#[test]
fn focus_target_and_profiles() {
    let mut session = SessionView::new();
    assert_eq!(session.focus_target(), Some(PaneId(1)));
    let custom = Profile { default_size_columns: 100, ..Default::default() };
    session.apply_profile_to_pane(PaneId(1), &custom);
    assert_eq!(session.get_pane_profile(PaneId(1)), Some(custom));
    assert_eq!(session.get_pane_profile(PaneId(2)), None);
    session.set_new_pane_profile(&custom);
    let p2 = session.split_active(SplitOrientation::Horizontal).unwrap();
    assert_eq!(session.get_pane_profile(p2), Some(custom));
    session.close();
    assert_eq!(session.focus_target(), None);
}

#[test]
fn reset_starts_over_with_pane_one() {
    let mut session = SessionView::with_id(PaneId(7));
    session.split_active(SplitOrientation::Horizontal);
    session.set_sync_input_enabled(true);
    session.reset();
    assert_eq!(session.pane_ids(), vec![PaneId(1)]);
    assert_eq!(session.active_pane_id(), Some(PaneId(1)));
    assert!(!session.sync_input_enabled());
    assert_eq!(session.split_active(SplitOrientation::Horizontal), Some(PaneId(2)));
}

#[test]
fn config_sets_display_settings() {
    let config = AppConfig { use_wide_handle: true, pane_title_style: PaneTitleStyle::Hidden, ..Default::default() };
    let session = SessionView::with_id_and_config(PaneId(3), &config);
    assert!(session.use_wide_handle());
    assert_eq!(session.pane_title_style(), PaneTitleStyle::Hidden);
    assert!(!session.pane(PaneId(3)).unwrap().is_header_visible());
}

#[test]
fn separator_double_click_window() {
    assert!(!separator_double_click(None, 1000));
    assert!(separator_double_click(Some(1000), 1449));
    assert!(!separator_double_click(Some(1000), 1450));
    assert!(separator_double_click(Some(2000), 1000));
}

fn leaf(id: u64) -> Box<LayoutNode> {
    Box::new(LayoutNode::Leaf(PaneId(id)))
}

#[test]
fn split_direction_is_kept_in_the_layout() {
    let mut right = SessionView::new();
    right.split_active(SplitOrientation::Horizontal);
    assert_eq!(
        right.layout(),
        Some(LayoutNode::Split { orientation: SplitOrientation::Horizontal, first: leaf(1), second: leaf(2) })
    );

    let mut down = SessionView::new();
    down.split_active(SplitOrientation::Vertical);
    assert_eq!(
        down.layout(),
        Some(LayoutNode::Split { orientation: SplitOrientation::Vertical, first: leaf(1), second: leaf(2) })
    );
    assert_ne!(right.layout(), down.layout());

    // Splitting the second pane down nests a split inside the first one.
    right.split_active(SplitOrientation::Vertical);
    assert_eq!(
        right.layout(),
        Some(LayoutNode::Split {
            orientation: SplitOrientation::Horizontal,
            first: leaf(1),
            second: Box::new(LayoutNode::Split { orientation: SplitOrientation::Vertical, first: leaf(2), second: leaf(3) }),
        })
    );
}

#[test]
fn closing_a_pane_lets_its_sibling_take_the_split() {
    let mut session = SessionView::new();
    session.split_active(SplitOrientation::Horizontal);
    session.split_active(SplitOrientation::Vertical);
    assert!(session.close_pane(PaneId(2)));
    assert_eq!(
        session.layout(),
        Some(LayoutNode::Split { orientation: SplitOrientation::Horizontal, first: leaf(1), second: leaf(3) })
    );
    assert!(session.close_pane(PaneId(1)));
    assert_eq!(session.layout(), Some(LayoutNode::Leaf(PaneId(3))));
    assert!(session.close_pane(PaneId(3)));
    assert_eq!(session.layout(), None);
}

#[test]
fn docking_builds_splits_of_the_dock_direction() {
    let mut session = SessionView::new();
    session.split_active(SplitOrientation::Horizontal);
    session.split_active(SplitOrientation::Horizontal);
    // [1 | [2 | 3]]: docking 1 at the bottom of 3 stacks them.
    assert_eq!(session.dock_pane(PaneId(1), PaneId(3), DockPosition::Bottom), DockOutcome::Docked);
    assert_eq!(
        session.layout(),
        Some(LayoutNode::Split {
            orientation: SplitOrientation::Horizontal,
            first: leaf(2),
            second: Box::new(LayoutNode::Split { orientation: SplitOrientation::Vertical, first: leaf(3), second: leaf(1) }),
        })
    );
    // Docking 1 at the left of 2 puts them side by side.
    assert_eq!(session.dock_pane(PaneId(1), PaneId(2), DockPosition::Left), DockOutcome::Docked);
    assert_eq!(
        session.layout(),
        Some(LayoutNode::Split {
            orientation: SplitOrientation::Horizontal,
            first: Box::new(LayoutNode::Split { orientation: SplitOrientation::Horizontal, first: leaf(1), second: leaf(2) }),
            second: leaf(3),
        })
    );
    // Top differs from Left.
    assert_eq!(session.dock_pane(PaneId(3), PaneId(1), DockPosition::Top), DockOutcome::Docked);
    assert_eq!(
        session.layout(),
        Some(LayoutNode::Split {
            orientation: SplitOrientation::Horizontal,
            first: Box::new(LayoutNode::Split { orientation: SplitOrientation::Vertical, first: leaf(3), second: leaf(1) }),
            second: leaf(2),
        })
    );
    // The centre exchanges two panes.
    assert_eq!(session.dock_pane(PaneId(3), PaneId(2), DockPosition::Center), DockOutcome::Docked);
    assert_eq!(session.pane_ids(), vec![PaneId(2), PaneId(1), PaneId(3)]);
}

#[test]
fn adopted_pane_splits_its_target() {
    let mut session = SessionView::with_id(PaneId(10));
    assert!(session.adopt_pane(TerminalPane::new(PaneId(2)), PaneId(10), DockPosition::Top).is_none());
    assert_eq!(
        session.layout(),
        Some(LayoutNode::Split { orientation: SplitOrientation::Vertical, first: leaf(2), second: leaf(10) })
    );
    assert!(session.adopt_pane(TerminalPane::new(PaneId(3)), PaneId(99), DockPosition::Top).is_none());
    assert_eq!(session.pane_ids(), vec![PaneId(2), PaneId(10), PaneId(3)]);
}

#[test]
fn new_session_state() {
    let session = SessionView::new();
    let pane = session.pane(PaneId(1)).unwrap();
    assert_eq!(pane.font_scale(), 10);
    assert_eq!(pane.raw_title(), "Terminal");
    assert!(pane.is_sync_enabled());
    assert_eq!(pane.current_profile(), Profile::default());
    assert_eq!(session.layout(), Some(LayoutNode::Leaf(PaneId(1))));
}
