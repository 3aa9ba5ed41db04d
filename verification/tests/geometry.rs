use tilix::geometry::{
    calculate_window_size_from_cell_size, window_size_fits, COMPACT_HEADER_BAR_HEIGHT, COMPACT_PANE_HEADER_HEIGHT,
    COMPACT_TAB_BAR_HEIGHT, DEFAULT_HEADER_BAR_HEIGHT, DEFAULT_PANE_HEADER_HEIGHT, DEFAULT_SCROLLBAR_WIDTH,
    DEFAULT_TAB_BAR_HEIGHT, DEFAULT_WINDOW_HEIGHT, DEFAULT_WINDOW_WIDTH,
};
use tilix::types::{AppConfig, PaneTitleStyle, Profile, WindowStyle};

#[test]
fn test_compact_geometry_constants() {
    assert_eq!(COMPACT_HEADER_BAR_HEIGHT, 28);
    assert_eq!(COMPACT_TAB_BAR_HEIGHT, 22);
    assert_eq!(COMPACT_PANE_HEADER_HEIGHT, 22);
}

#[test]
fn test_calculate_window_size_compact_mode_delta() {
    let profile = Profile::default();
    let normal_cfg = AppConfig { compact_mode: false, ..Default::default() };
    let compact_cfg = AppConfig { compact_mode: true, ..Default::default() };

    let cell_size = Some((9, 20));
    let (nw, nh) = calculate_window_size_from_cell_size(&profile, &normal_cfg, cell_size, None);
    let (cw, ch) = calculate_window_size_from_cell_size(&profile, &compact_cfg, cell_size, None);

    assert_eq!(nw, cw);
    assert_eq!(nw, 80 * 9 + 16);
    assert_eq!(nh - ch, 48);
    assert_eq!(nh, 24 * 20 + 36 + 46 + 38);
    assert_eq!(ch, 24 * 20 + 22 + 28 + 22);
}

#[test]
fn test_calculate_window_size_compact_mode_hidden_chrome() {
    let profile = Profile::default();
    let mut normal_cfg = AppConfig::default();
    normal_cfg.window_style = WindowStyle::HideToolbar;
    normal_cfg.show_tab_bar = false;
    normal_cfg.pane_title_style = PaneTitleStyle::Hidden;
    normal_cfg.compact_mode = false;

    let mut compact_cfg = normal_cfg.clone();
    compact_cfg.compact_mode = true;

    let cell_size = Some((9, 20));
    let (nw, nh) = calculate_window_size_from_cell_size(&profile, &normal_cfg, cell_size, None);
    let (cw, ch) = calculate_window_size_from_cell_size(&profile, &compact_cfg, cell_size, None);

    assert_eq!((nw, nh), (cw, ch));
    assert_eq!(nw, 736);
    assert_eq!(nh, 480);
}

#[test]
fn test_phase12_calculate_window_size_default_80x24() {
    let profile = Profile::default();
    let app_config = AppConfig::default();
    let (w, h) = calculate_window_size_from_cell_size(&profile, &app_config, Some((9, 20)), None);
    assert_eq!(w, 736);
    assert_eq!(h, 600);
}

#[test]
fn test_phase12_calculate_window_size_simulated_hidpi_196dpi() {
    let profile = Profile::default();
    let app_config = AppConfig::default();
    let (w, h) = calculate_window_size_from_cell_size(&profile, &app_config, Some((16, 35)), None);
    assert_eq!(w, 1296);
    assert_eq!(h, 960);
}

#[test]
fn test_phase12_calculate_window_size_custom_grid() {
    let profile = Profile { default_size_columns: 132, default_size_rows: 43, ..Default::default() };
    let app_config = AppConfig::default();
    let (w, h) = calculate_window_size_from_cell_size(&profile, &app_config, Some((9, 20)), None);
    assert_eq!(w, 1204);
    assert_eq!(h, 980);
}

#[test]
fn test_phase12_chrome_toggles() {
    let base_profile = Profile::default();
    let base_config = AppConfig::default();
    let cell_size = Some((10, 20));
    let (base_w, base_h) = calculate_window_size_from_cell_size(&base_profile, &base_config, cell_size, None);

    let mut no_scrollbar_profile = base_profile.clone();
    no_scrollbar_profile.show_scrollbar = false;
    let (w_no_sb, h_no_sb) = calculate_window_size_from_cell_size(&no_scrollbar_profile, &base_config, cell_size, None);
    assert_eq!(w_no_sb, base_w - DEFAULT_SCROLLBAR_WIDTH);
    assert_eq!(h_no_sb, base_h);

    let mut no_tb_config = base_config.clone();
    no_tb_config.window_style = WindowStyle::HideToolbar;
    let (w_no_tb, h_no_tb) = calculate_window_size_from_cell_size(&base_profile, &no_tb_config, cell_size, None);
    assert_eq!(w_no_tb, base_w);
    assert_eq!(h_no_tb, base_h - DEFAULT_HEADER_BAR_HEIGHT);

    let mut no_tabs_config = base_config.clone();
    no_tabs_config.show_tab_bar = false;
    let (w_no_tabs, h_no_tabs) = calculate_window_size_from_cell_size(&base_profile, &no_tabs_config, cell_size, None);
    assert_eq!(w_no_tabs, base_w);
    assert_eq!(h_no_tabs, base_h - DEFAULT_TAB_BAR_HEIGHT);

    let mut no_ph_config = base_config.clone();
    no_ph_config.pane_title_style = PaneTitleStyle::Hidden;
    let (w_no_ph, h_no_ph) = calculate_window_size_from_cell_size(&base_profile, &no_ph_config, cell_size, None);
    assert_eq!(w_no_ph, base_w);
    assert_eq!(h_no_ph, base_h - DEFAULT_PANE_HEADER_HEIGHT);

    let mut no_ph_single = base_config.clone();
    no_ph_single.pane_title_show_when_single = false;
    let (w_single, h_single) = calculate_window_size_from_cell_size(&base_profile, &no_ph_single, cell_size, None);
    assert_eq!(w_single, base_w);
    assert_eq!(h_single, base_h - DEFAULT_PANE_HEADER_HEIGHT);
}

#[test]
fn test_phase12_screen_clamping_max_bounds() {
    let profile = Profile::default();
    let app_config = AppConfig::default();
    let (w, h) = calculate_window_size_from_cell_size(&profile, &app_config, Some((16, 35)), Some((800, 600)));
    assert_eq!(w, 720);
    assert_eq!(h, 540);
}

#[test]
fn test_phase12_screen_clamping_min_bounds() {
    let mut profile = Profile { default_size_columns: 10, default_size_rows: 5, ..Default::default() };
    let app_config = AppConfig::default();
    let (w, h) = calculate_window_size_from_cell_size(&profile, &app_config, Some((9, 20)), None);
    assert_eq!(w, 300);
    assert_eq!(h, 220);

    profile.default_size_columns = 5;
    profile.default_size_rows = 2;
    let (w2, h2) = calculate_window_size_from_cell_size(&profile, &app_config, Some((9, 20)), None);
    assert_eq!(w2, 300);
    assert_eq!(h2, 200);
}

#[test]
fn test_phase12_fallback_on_zero_or_negative_dimensions() {
    let profile = Profile::default();
    let app_config = AppConfig::default();

    let (w1, h1) = calculate_window_size_from_cell_size(&profile, &app_config, None, None);
    assert_eq!((w1, h1), (DEFAULT_WINDOW_WIDTH, DEFAULT_WINDOW_HEIGHT));

    let (w2, h2) = calculate_window_size_from_cell_size(&profile, &app_config, Some((0, 20)), None);
    assert_eq!((w2, h2), (DEFAULT_WINDOW_WIDTH, DEFAULT_WINDOW_HEIGHT));

    let (w3, h3) = calculate_window_size_from_cell_size(&profile, &app_config, Some((10, 0)), None);
    assert_eq!((w3, h3), (DEFAULT_WINDOW_WIDTH, DEFAULT_WINDOW_HEIGHT));

    let (w4, h4) = calculate_window_size_from_cell_size(&profile, &app_config, Some((-5, 20)), None);
    assert_eq!((w4, h4), (DEFAULT_WINDOW_WIDTH, DEFAULT_WINDOW_HEIGHT));
}

#[test]
fn test_phase15_geometry_constants_integrity() {
    assert_eq!(COMPACT_HEADER_BAR_HEIGHT, 28);
    assert_eq!(COMPACT_TAB_BAR_HEIGHT, 22);
    assert_eq!(COMPACT_PANE_HEADER_HEIGHT, 22);
}

#[test]
fn test_phase15_window_geometry_compact_vs_normal() {
    let profile = Profile::default();
    let normal_cfg = AppConfig { compact_mode: false, ..Default::default() };
    let compact_cfg = AppConfig { compact_mode: true, ..Default::default() };

    let cell_size = Some((9, 20));
    let (nw, nh) = calculate_window_size_from_cell_size(&profile, &normal_cfg, cell_size, None);
    let (cw, ch) = calculate_window_size_from_cell_size(&profile, &compact_cfg, cell_size, None);

    assert_eq!(nw, 736);
    assert_eq!(nh, 600);
    assert_eq!(cw, 736);
    assert_eq!(ch, 552);
    assert_eq!(nh - ch, 48);
}

#[test]
fn test_phase15_window_geometry_compact_with_hidden_chrome() {
    let profile = Profile::default();
    let mut normal_cfg = AppConfig::default();
    normal_cfg.window_style = WindowStyle::HideToolbar;
    normal_cfg.show_tab_bar = false;
    normal_cfg.pane_title_style = PaneTitleStyle::Hidden;
    normal_cfg.compact_mode = false;

    let mut compact_cfg = normal_cfg.clone();
    compact_cfg.compact_mode = true;

    let cell_size = Some((9, 20));
    let (nw, nh) = calculate_window_size_from_cell_size(&profile, &normal_cfg, cell_size, None);
    let (cw, ch) = calculate_window_size_from_cell_size(&profile, &compact_cfg, cell_size, None);

    assert_eq!((nw, nh), (cw, ch));
    assert_eq!(nw, 736);
    assert_eq!(nh, 480);
}

#[test]
fn monitor_bound_rounds_half_up() {
    // 90% of 1001 is 900.9, which rounds to 901; the grid of 1296x960 is clamped to it.
    let profile = Profile::default();
    let app_config = AppConfig::default();
    let (w, h) = calculate_window_size_from_cell_size(&profile, &app_config, Some((16, 35)), Some((1001, 1005)));
    assert_eq!(w, 901);
    assert_eq!(h, 905);
}

#[test]
fn small_monitor_bound_wins_over_minimum() {
    let profile = Profile::default();
    let app_config = AppConfig::default();
    let (w, h) = calculate_window_size_from_cell_size(&profile, &app_config, Some((9, 20)), Some((200, 100)));
    assert_eq!((w, h), (180, 90));
}

#[test]
fn monitor_with_zero_size_is_ignored() {
    let profile = Profile::default();
    let app_config = AppConfig::default();
    let (w, h) = calculate_window_size_from_cell_size(&profile, &app_config, Some((9, 20)), Some((0, 600)));
    assert_eq!((w, h), (736, 600));
}

#[test]
fn margin_counts_on_both_sides() {
    let profile = Profile { draw_margin: 10, ..Default::default() };
    let app_config = AppConfig::default();
    let (w, _h) = calculate_window_size_from_cell_size(&profile, &app_config, Some((9, 20)), None);
    assert_eq!(w, 736 + 20);
}

#[test]
fn window_size_fits_rejects_huge_grids() {
    let app_config = AppConfig::default();
    assert!(window_size_fits(&Profile::default(), &app_config, Some((9, 20))));
    assert!(window_size_fits(&Profile::default(), &app_config, None));
    let huge = Profile { default_size_columns: 1_000_000, ..Default::default() };
    assert!(!window_size_fits(&huge, &app_config, Some((9_000, 20))));
    assert!(window_size_fits(&huge, &app_config, Some((0, 20))));
}
