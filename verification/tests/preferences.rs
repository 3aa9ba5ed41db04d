use tilix::preferences::{
    accel_disabled, badge_position_from_index, badge_position_index, bell_from_index, bell_index, cjk_width_from_index,
    cjk_width_index, color_scheme_from_index, color_scheme_index, color_scheme_name, conflict_banner_text,
    cursor_blink_from_index, cursor_blink_index, cursor_shape_from_index, cursor_shape_index,
    custom_link_from_entries, custom_link_pattern_label, dashed_json_name, delete_profile_allowed, encoding_from_index,
    encoding_index, erase_binding_from_index, erase_binding_index, exit_action_from_index, exit_action_index,
    new_profile_id, pane_title_style_from_index, pane_title_style_index, profile_label, remove_at, scheme_file_name,
    selected_profile_index, set_default_allowed, shortcut_dialog_heading, shortcut_dialog_title, shortcut_key_action,
    switch_rule_from_entries, switch_rule_label, text_blink_from_index, text_blink_index, token_sections,
    window_style_from_index, window_style_index, ColorSchemeChoice, CursorBlink, CursorShape, EraseBinding,
    KeyModifiers, ShortcutKey, ShortcutKeyAction, TerminalBell, TextBlinkMode, TitleEditScope,
};
use tilix::terminal_pane::BadgePosition;
use tilix::types::{ExitActionPreference, PaneTitleStyle, WindowStyle};

#[test]
fn token_sections_by_scope() {
    let t = token_sections(TitleEditScope::Terminal);
    assert!(!t.session && !t.window);
    let s = token_sections(TitleEditScope::Session);
    assert!(s.session && !s.window);
    let w = token_sections(TitleEditScope::Window);
    assert!(w.session && w.window);
}

#[test]
fn list_positions_round_trip() {
    for m in [TextBlinkMode::Never, TextBlinkMode::Focused, TextBlinkMode::Unfocused, TextBlinkMode::Always] {
        assert_eq!(text_blink_from_index(text_blink_index(m)), m);
    }
    assert_eq!(text_blink_from_index(9), TextBlinkMode::Never);
    for s in [CursorShape::Block, CursorShape::IBeam, CursorShape::Underline] {
        assert_eq!(cursor_shape_from_index(cursor_shape_index(s)), s);
    }
    for b in [CursorBlink::System, CursorBlink::On, CursorBlink::Off] {
        assert_eq!(cursor_blink_from_index(cursor_blink_index(b)), b);
    }
    for b in [TerminalBell::Silent, TerminalBell::Sound, TerminalBell::Icon, TerminalBell::IconSound] {
        assert_eq!(bell_from_index(bell_index(b)), b);
    }
    assert_eq!(bell_from_index(7), TerminalBell::Sound);
    assert_eq!(bell_index(TerminalBell::Silent), 0);
    for a in [ExitActionPreference::Close, ExitActionPreference::Restart, ExitActionPreference::Hold] {
        assert_eq!(exit_action_from_index(exit_action_index(a)), a);
    }
    assert_eq!(exit_action_index(ExitActionPreference::Hold), 2);
    for b in [EraseBinding::Auto, EraseBinding::AsciiBackspace, EraseBinding::AsciiDelete, EraseBinding::DeleteSequence, EraseBinding::Tty] {
        assert_eq!(erase_binding_from_index(erase_binding_index(b)), b);
    }
    assert_eq!(erase_binding_from_index(5), EraseBinding::Auto);
    assert_eq!(cjk_width_from_index(1), tilix::preferences::CjkWidth::Wide);
    assert_eq!(cjk_width_index(tilix::preferences::CjkWidth::Narrow), 0);
    for p in [BadgePosition::Northwest, BadgePosition::Northeast, BadgePosition::Southwest, BadgePosition::Southeast] {
        assert_eq!(badge_position_from_index(badge_position_index(p)), p);
    }
    assert_eq!(badge_position_from_index(8), BadgePosition::Northeast);
    assert_eq!(window_style_from_index(window_style_index(WindowStyle::HideToolbar)), WindowStyle::HideToolbar);
    assert_eq!(window_style_from_index(3), WindowStyle::Normal);
    assert_eq!(pane_title_style_from_index(pane_title_style_index(PaneTitleStyle::Hidden)), PaneTitleStyle::Hidden);
    assert_eq!(pane_title_style_index(PaneTitleStyle::Normal), 0);
}

#[test]
fn encodings_and_schemes() {
    assert_eq!(encoding_index("ISO-8859-1"), 1);
    assert_eq!(encoding_index("Windows-1252"), 2);
    assert_eq!(encoding_index("US-ASCII"), 3);
    assert_eq!(encoding_index("UTF-8"), 0);
    assert_eq!(encoding_index("KOI8-R"), 0);
    assert_eq!(encoding_from_index(2), "Windows-1252");
    assert_eq!(encoding_from_index(0), "UTF-8");
    assert_eq!(encoding_from_index(12), "UTF-8");

    assert_eq!(color_scheme_index("Tilix Dark"), 0);
    assert_eq!(color_scheme_index("Monokai"), 3);
    assert_eq!(color_scheme_index("Custom"), 4);
    assert_eq!(color_scheme_from_index(1), Some(ColorSchemeChoice::TilixLight));
    assert_eq!(color_scheme_from_index(4), None);
    assert_eq!(color_scheme_name(ColorSchemeChoice::SolarizedDark), "Solarized Dark");
    assert_eq!(scheme_file_name("Solarized Dark"), "solarized-dark.json");
    assert_eq!(scheme_file_name("My ÄB Theme"), "my-äb-theme.json");
    assert_eq!(dashed_json_name("a b"), "a-b.json");
}

#[test]
fn profile_list_helpers() {
    assert_eq!(profile_label("Default", "p1", "p1"), "Default (Default)");
    assert_eq!(profile_label("Work", "p2", "p1"), "Work");
    let ids = vec!["p1".to_string(), "p2".to_string(), "p2".to_string()];
    assert_eq!(selected_profile_index(&ids, "p2"), 1);
    assert_eq!(selected_profile_index(&ids, "zz"), 0);
    assert!(!delete_profile_allowed(1));
    assert!(delete_profile_allowed(2));
    assert!(set_default_allowed("p2", "p1"));
    assert!(!set_default_allowed("p1", "p1"));
    assert_eq!(new_profile_id("abc"), "profile-abc");
}

#[test]
fn switch_rules_and_links() {
    assert!(switch_rule_from_entries("  ", "\t", "p").is_none());
    let rule = switch_rule_from_entries(" host ", "", "p1").unwrap();
    assert_eq!(rule.hostname, "host");
    assert_eq!(rule.directory, "");
    assert_eq!(rule.profile_id, "p1");
    assert_eq!(switch_rule_label(&rule), "host:");

    assert!(custom_link_from_entries("name", " ", "u").is_none());
    assert!(custom_link_from_entries("", "pat", "u").is_none());
    let link = custom_link_from_entries(" Bug ", " #\\d+ ", " https://x/$0 ").unwrap();
    assert_eq!(link.name, "Bug");
    assert_eq!(link.pattern, "#\\d+");
    assert_eq!(link.uri, "https://x/$0");
    assert_eq!(custom_link_pattern_label("#\\d+"), "(#\\d+)");

    let mut v = vec![1, 2, 3];
    assert!(remove_at(&mut v, 1));
    assert_eq!(v, vec![1, 3]);
    assert!(!remove_at(&mut v, 5));
    assert_eq!(v, vec![1, 3]);
}

#[test]
fn shortcut_keys() {
    let none = KeyModifiers { control: false, shift: false, alt: false, super_key: false };
    let ctrl_shift = KeyModifiers { control: true, shift: true, alt: false, super_key: false };
    assert_eq!(shortcut_key_action(ShortcutKey::Modifier, ctrl_shift), ShortcutKeyAction::Proceed);
    assert_eq!(shortcut_key_action(ShortcutKey::Escape, none), ShortcutKeyAction::Close);
    assert_eq!(shortcut_key_action(ShortcutKey::Erase, none), ShortcutKeyAction::Clear);
    assert_eq!(shortcut_key_action(ShortcutKey::Erase, ctrl_shift), ShortcutKeyAction::Capture(ctrl_shift));
    assert_eq!(
        shortcut_key_action(ShortcutKey::Other { punctuation: true }, ctrl_shift),
        ShortcutKeyAction::Capture(KeyModifiers { shift: false, ..ctrl_shift })
    );
    assert_eq!(shortcut_key_action(ShortcutKey::Other { punctuation: false }, ctrl_shift), ShortcutKeyAction::Capture(ctrl_shift));
    assert!(accel_disabled("  "));
    assert!(!accel_disabled("<Primary>t"));
    assert_eq!(conflict_banner_text("New Tab", "&lt;Primary&gt;t"), "\u{26a0}\u{fe0f} Already assigned to 'New Tab' (&lt;Primary&gt;t)");
    assert_eq!(shortcut_dialog_title("Copy"), "Set Shortcut \u{2014} Copy");
    assert_eq!(shortcut_dialog_heading("Copy"), "Set Shortcut: Copy");
}
