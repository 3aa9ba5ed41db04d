use vstd::prelude::*;

verus! {

/// Identifier of a terminal pane.
#[derive(Clone, Copy, Debug, PartialEq, Eq, Hash, PartialOrd, Ord, Structural)]
pub struct PaneId(pub u64);

/// Identifier of a split node of the layout.
#[derive(Clone, Copy, Debug, PartialEq, Eq, Hash, PartialOrd, Ord, Structural)]
pub struct SplitId(pub u64);

/// Direction in which a pane is split.
#[derive(Clone, Copy, Debug, PartialEq, Eq, Structural)]
pub enum SplitOrientation {
    Horizontal,
    Vertical,
}

/// How pane title bars are shown: normally, or never.
#[derive(Clone, Copy, Debug, PartialEq, Eq, Structural)]
pub enum PaneTitleStyle {
    Normal,
    Hidden,
}

/// How the main window chrome is shown.
#[derive(Clone, Copy, Debug, PartialEq, Eq, Structural)]
pub enum WindowStyle {
    Normal,
    HideToolbar,
}

/// What a pane does when its child process exits.
#[derive(Clone, Copy, Debug, PartialEq, Eq, Structural)]
pub enum ExitActionPreference {
    Close,
    Restart,
    Hold,
}

/// Where a dragged pane is docked relative to the pane it is dropped on.
#[derive(Clone, Copy, Debug, PartialEq, Eq, Structural)]
pub enum DockPosition {
    Top,
    Bottom,
    Left,
    Right,
    Center,
}

/// Alignment of a widget inside its allocation.
#[derive(Clone, Copy, Debug, PartialEq, Eq, Structural)]
pub enum Align {
    Fill,
    Start,
    End,
}

/// The values of a terminal profile that sizing, dimming and exit handling read.
#[derive(Clone, Copy, Debug, PartialEq, Eq, Structural)]
pub struct Profile {
    pub default_size_columns: u32,
    pub default_size_rows: u32,
    pub show_scrollbar: bool,
    pub draw_margin: u32,
    pub background_transparency_percent: u32,
    pub dim_transparency_percent: u32,
    pub exit_action: ExitActionPreference,
}

/// The default profile: an 80x24 terminal with a scrollbar, no margin, opaque,
/// undimmed, closing on exit.
pub open spec fn default_profile() -> Profile {
    Profile {
        default_size_columns: 80,
        default_size_rows: 24,
        show_scrollbar: true,
        draw_margin: 0,
        background_transparency_percent: 0,
        dim_transparency_percent: 0,
        exit_action: ExitActionPreference::Close,
    }
}

impl Default for Profile {
    /// An 80x24 terminal with a scrollbar, no margin, opaque, undimmed, closing on exit.
    fn default() -> (p: Self)
        ensures
            p == default_profile(),
    {
        Profile {
            default_size_columns: 80,
            default_size_rows: 24,
            show_scrollbar: true,
            draw_margin: 0,
            background_transparency_percent: 0,
            dim_transparency_percent: 0,
            exit_action: ExitActionPreference::Close,
        }
    }
}

/// The application settings that window chrome, pane headers and notifications read.
#[derive(Clone, Copy, Debug, PartialEq, Eq, Structural)]
pub struct AppConfig {
    pub compact_mode: bool,
    pub pane_title_style: PaneTitleStyle,
    pub pane_title_show_when_single: bool,
    pub window_style: WindowStyle,
    pub show_tab_bar: bool,
    pub use_wide_handle: bool,
    pub notifications_enabled: bool,
    pub bell_notifications: bool,
    pub process_exit_notifications: bool,
}

/// The default configuration: full-size chrome with a tab bar and pane titles shown even
/// for a single pane, normal handles, notifications on.
pub open spec fn default_app_config() -> AppConfig {
    AppConfig {
        compact_mode: false,
        pane_title_style: PaneTitleStyle::Normal,
        pane_title_show_when_single: true,
        window_style: WindowStyle::Normal,
        show_tab_bar: true,
        use_wide_handle: false,
        notifications_enabled: true,
        bell_notifications: true,
        process_exit_notifications: true,
    }
}

impl Default for AppConfig {
    /// Full-size chrome with a tab bar and pane titles, notifications on.
    fn default() -> (c: Self)
        ensures
            c == default_app_config(),
    {
        AppConfig {
            compact_mode: false,
            pane_title_style: PaneTitleStyle::Normal,
            pane_title_show_when_single: true,
            window_style: WindowStyle::Normal,
            show_tab_bar: true,
            use_wide_handle: false,
            notifications_enabled: true,
            bell_notifications: true,
            process_exit_notifications: true,
        }
    }
}

} // verus!
