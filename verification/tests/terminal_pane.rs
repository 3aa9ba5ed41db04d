use tilix::terminal_pane::{
    background_alpha_percent, badge_alignment, badge_visible, comm_name, comm_target_pid, default_grid_size,
    drop_indicator_layout, held_title, override_color, parse_stat_tpgid, pty_window_size, resolve_cursor_colors,
    resolve_directory, scroll_zoom, scrollback_setting, select_switch_rule, spawn_window_size, terminal_opacity_percent,
    BadgePosition, ExitReaction, ScrollZoom, TerminalPane, ZOOM_MAX, ZOOM_MIN, ZOOM_NORMAL,
};
use tilix::types::{Align, DockPosition, ExitActionPreference, PaneId, Profile};

#[test]
fn test_terminal_pane_header_visibility() {
    let mut pane = TerminalPane::new(PaneId(1));
    assert!(pane.is_header_visible());

    pane.set_header_visible(false);
    assert!(!pane.is_header_visible());

    pane.set_header_visible(true);
    assert!(pane.is_header_visible());
}

#[test]
fn test_terminal_pane_drop_indicator_visibility() {
    let mut pane = TerminalPane::new(PaneId(1));
    assert!(!pane.is_drop_indicator_visible());

    pane.show_drop_indicator(DockPosition::Top, 400, 300);
    assert!(pane.is_drop_indicator_visible());

    pane.hide_drop_indicator();
    assert!(!pane.is_drop_indicator_visible());

    pane.show_drop_indicator(DockPosition::Center, 400, 300);
    assert!(pane.is_drop_indicator_visible());

    pane.hide_drop_indicator();
    assert!(!pane.is_drop_indicator_visible());
}

#[test]
fn test_terminal_pane_zoom_operations() {
    let mut pane = TerminalPane::new(PaneId(1));
    assert_eq!(pane.font_scale(), ZOOM_NORMAL);

    pane.zoom_in();
    assert_eq!(pane.font_scale(), 11);

    pane.zoom_out();
    assert_eq!(pane.font_scale(), 10);

    pane.zoom_normal();
    assert_eq!(pane.font_scale(), ZOOM_NORMAL);

    for _ in 0..20 {
        pane.zoom_out();
    }
    assert_eq!(pane.font_scale(), ZOOM_MIN);

    for _ in 0..60 {
        pane.zoom_in();
    }
    assert_eq!(pane.font_scale(), ZOOM_MAX);
}

#[test]
fn test_phase13_terminal_pane_zoom_operations() {
    let mut pane = TerminalPane::new(PaneId(1));
    assert_eq!(pane.font_scale(), ZOOM_NORMAL);

    pane.zoom_in();
    assert_eq!(pane.font_scale(), 11);

    pane.zoom_in();
    assert_eq!(pane.font_scale(), 12);

    pane.zoom_normal();
    assert_eq!(pane.font_scale(), ZOOM_NORMAL);

    pane.zoom_out();
    assert_eq!(pane.font_scale(), 9);

    for _ in 0..20 {
        pane.zoom_out();
    }
    assert_eq!(pane.font_scale(), ZOOM_MIN);
    assert_eq!(pane.font_scale(), 2);

    for _ in 0..60 {
        pane.zoom_in();
    }
    assert_eq!(pane.font_scale(), ZOOM_MAX);
    assert_eq!(pane.font_scale(), 50);

    pane.zoom_normal();
    assert_eq!(pane.font_scale(), 10);
}

#[test]
fn test_phase13_zoom_arithmetic_precision() {
    let mut pane = TerminalPane::new(PaneId(1));
    for i in 1..=10u32 {
        pane.zoom_in();
        assert_eq!(pane.font_scale(), 10 + i);
    }
    for _ in 0..20 {
        pane.zoom_out();
        let raw = pane.font_scale();
        assert!(raw >= ZOOM_MIN);
        assert!(raw <= ZOOM_MAX);
    }
    assert_eq!(pane.font_scale(), ZOOM_MIN);
}

#[test]
fn test_phase17_terminal_pane_is_transparent() {
    let mut pane = TerminalPane::new(PaneId(1));
    let mut opaque_prof = Profile::default();
    opaque_prof.background_transparency_percent = 0;
    pane.apply_profile(&opaque_prof);
    assert!(!pane.is_transparent(), "Pane with 0% transparency should not be transparent");

    let mut trans_prof = Profile::default();
    trans_prof.background_transparency_percent = 30;
    pane.apply_profile(&trans_prof);
    assert!(pane.is_transparent(), "Pane with 30% transparency should be transparent");
}

#[test]
fn test_terminal_pane_exit_action_hold() {
    let mut pane = TerminalPane::new(PaneId(1));
    let prof = Profile { exit_action: ExitActionPreference::Hold, ..Default::default() };
    pane.apply_profile(&prof);
    pane.child_spawned(4242);

    let reaction = pane.child_exited();

    // Hold does not close the pane; its title shows the exit status.
    assert_eq!(reaction, ExitReaction::Hold);
    assert!(!pane.is_closing());
    let title = held_title(&pane.raw_title(), 0);
    assert!(title.contains("[Process exited: 0]"));
    assert_eq!(pane.child_pid(), None);
}

#[test]
fn exit_action_close_marks_pane_closing_once() {
    let mut pane = TerminalPane::new(PaneId(3));
    pane.child_spawned(7);
    assert_eq!(pane.child_exited(), ExitReaction::Close);
    assert!(pane.is_closing());
    assert_eq!(pane.child_exited(), ExitReaction::Ignore);
}

#[test]
fn exit_action_restart_keeps_pane_open() {
    let mut pane = TerminalPane::new(PaneId(3));
    pane.apply_profile(&Profile { exit_action: ExitActionPreference::Restart, ..Default::default() });
    assert_eq!(pane.child_exited(), ExitReaction::Restart);
    assert!(!pane.is_closing());
}

#[test]
fn request_close_fires_only_once() {
    let mut pane = TerminalPane::new(PaneId(2));
    assert!(pane.request_close());
    assert!(!pane.request_close());
    assert!(pane.is_closing());
}

#[test]
fn new_pane_defaults() {
    let pane = TerminalPane::new(PaneId(9));
    assert_eq!(pane.pane_id(), PaneId(9));
    assert_eq!(pane.raw_title(), "Terminal");
    assert!(pane.is_sync_enabled());
    assert!(!pane.is_closing());
    assert!(!pane.is_active());
    assert_eq!(pane.current_profile(), Profile::default());
}

#[test]
fn set_active_reports_dimmed_opacity() {
    let mut pane = TerminalPane::new(PaneId(1));
    pane.apply_profile(&Profile { dim_transparency_percent: 30, ..Default::default() });
    assert_eq!(pane.set_active(false), 70);
    assert!(!pane.is_active());
    assert_eq!(pane.set_active(true), 100);
    assert!(pane.is_active());
    assert_eq!(terminal_opacity_percent(20), 80);
    assert_eq!(terminal_opacity_percent(150), 0);
}

#[test]
fn background_alpha_is_complement_of_transparency() {
    assert_eq!(background_alpha_percent(0), 100);
    assert_eq!(background_alpha_percent(25), 75);
    assert_eq!(background_alpha_percent(100), 0);
}

#[test]
fn drop_indicator_halves_at_least_twenty() {
    let top = drop_indicator_layout(DockPosition::Top, 400, 300);
    assert_eq!(top.height_request, 150);
    assert_eq!(top.valign, Align::Start);
    let left = drop_indicator_layout(DockPosition::Left, 30, 300);
    assert_eq!(left.width_request, 20);
    assert_eq!(left.halign, Align::Start);
}

#[test]
fn stat_tpgid_reads_sixth_field_after_command() {
    let stat = "1234 (bash (x)) S 1 1234 1234 34816 5678 4194304 0";
    assert_eq!(parse_stat_tpgid(stat), Some(5678));
    assert_eq!(parse_stat_tpgid("1234 (bash) S 1 2 3 4 -1 0"), None);
    assert_eq!(parse_stat_tpgid("1234 (bash) S 1 2"), None);
    assert_eq!(parse_stat_tpgid("no parenthesis here"), None);
    assert_eq!(parse_stat_tpgid("1 (x) S 1 2 3 4 abc"), None);
}

#[test]
fn comm_helpers() {
    assert_eq!(comm_target_pid(Some(77), 10), 77);
    assert_eq!(comm_target_pid(None, 10), 10);
    assert_eq!(comm_name("  vim\n"), "vim");
}

#[test]
fn directory_resolution_prefers_processes() {
    let s = |x: &str| Some(x.to_string());
    assert_eq!(resolve_directory(s("/fg"), s("/sh"), s("/c"), s("/p")), (s("/fg"), s("/fg")));
    assert_eq!(resolve_directory(None, s("/sh"), s("/c"), s("/p")), (s("/sh"), s("/sh")));
    assert_eq!(resolve_directory(None, None, s("/c"), s("/p")), (s("/c"), s("/c")));
    assert_eq!(resolve_directory(None, None, None, s("/p")), (s("/p"), None));
}

#[test]
fn held_title_appends_exit_status() {
    assert_eq!(held_title("X", 0), "X [Process exited: 0]");
    assert_eq!(held_title("bash", -1), "bash [Process exited: -1]");
    assert_eq!(held_title("t", 127), "t [Process exited: 127]");
}

#[test]
fn pty_sizes() {
    assert_eq!(pty_window_size(30, 100), (30, 100));
    assert_eq!(pty_window_size(0, -1), (24, 80));
    let big = Profile { default_size_rows: 50, default_size_columns: 132, ..Default::default() };
    assert_eq!(spawn_window_size(0, 0, &big), (50, 132));
    let small = Profile { default_size_rows: 10, default_size_columns: 20, ..Default::default() };
    assert_eq!(spawn_window_size(0, 0, &small), (24, 80));
    assert_eq!(spawn_window_size(40, 90, &small), (40, 90));
    let zero = Profile { default_size_rows: 0, default_size_columns: 0, ..Default::default() };
    assert_eq!(default_grid_size(&zero), (1, 1));
    assert_eq!(default_grid_size(&Profile::default()), (80, 24));
}

#[test]
fn badge_helpers() {
    assert_eq!(badge_alignment(BadgePosition::Southwest), (Align::Start, Align::End));
    assert_eq!(badge_alignment(BadgePosition::Southeast), (Align::End, Align::End));
    assert_eq!(badge_alignment(BadgePosition::Northeast), (Align::End, Align::Start));
    assert!(badge_visible("DEV 1"));
    assert!(!badge_visible("   "));
    assert!(!badge_visible(""));
}

#[test]
fn scroll_zoom_with_control_only() {
    assert_eq!(scroll_zoom(true, false, false, -1), ScrollZoom::ZoomIn);
    assert_eq!(scroll_zoom(true, false, false, 1), ScrollZoom::ZoomOut);
    assert_eq!(scroll_zoom(true, false, false, 0), ScrollZoom::Pass);
    assert_eq!(scroll_zoom(true, true, false, -1), ScrollZoom::Pass);
    assert_eq!(scroll_zoom(false, false, false, -1), ScrollZoom::Pass);
}

#[test]
fn scrollback_and_colors() {
    assert_eq!(scrollback_setting(true, Some(500)), Some(-1));
    assert_eq!(scrollback_setting(false, Some(500)), Some(500));
    assert_eq!(scrollback_setting(false, None), None);
    assert_eq!(resolve_cursor_colors(true, Some(1), Some(2), Some(3), Some(4)), (Some(1), Some(2)));
    assert_eq!(resolve_cursor_colors(false, Some(1), Some(2), Some(3), Some(4)), (Some(3), Some(4)));
    assert_eq!(resolve_cursor_colors::<u32>(false, Some(1), Some(2), None, Some(4)), (None, None));
    assert_eq!(override_color(true, Some(5)), Some(5));
    assert_eq!(override_color(false, Some(5)), None);
}

#[test]
fn switch_rule_selection_takes_first_usable_rule() {
    // (rule matches, rule names the current profile, target profile exists)
    let rules = vec![(false, false, true), (true, true, true), (true, false, false), (true, false, true), (true, false, true)];
    assert_eq!(select_switch_rule(&rules), Some(3));
    assert_eq!(select_switch_rule(&vec![(true, true, true)]), None);
    assert_eq!(select_switch_rule(&Vec::new()), None);
}
