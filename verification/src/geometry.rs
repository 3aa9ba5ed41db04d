use vstd::prelude::*;

use crate::types::{AppConfig, PaneTitleStyle, Profile, WindowStyle};

verus! {

pub const DEFAULT_WINDOW_WIDTH: i32 = 900;
pub const DEFAULT_WINDOW_HEIGHT: i32 = 600;
pub const MIN_WINDOW_WIDTH: i32 = 300;
pub const MIN_WINDOW_HEIGHT: i32 = 200;
pub const DEFAULT_SCROLLBAR_WIDTH: i32 = 16;
pub const DEFAULT_HEADER_BAR_HEIGHT: i32 = 46;
pub const DEFAULT_TAB_BAR_HEIGHT: i32 = 38;
pub const DEFAULT_PANE_HEADER_HEIGHT: i32 = 36;
pub const COMPACT_HEADER_BAR_HEIGHT: i32 = 28;
pub const COMPACT_TAB_BAR_HEIGHT: i32 = 22;
pub const COMPACT_PANE_HEADER_HEIGHT: i32 = 22;
/// Share of a monitor dimension, in percent, that a new window may take.
pub const MAX_MONITOR_PERCENT: i32 = 90;

/// Whether a measured cell size can be used.
pub open spec fn cell_usable(cell: Option<(i32, i32)>) -> bool {
    match cell {
        Some((w, h)) => w > 0 && h > 0,
        None => false,
    }
}

pub open spec fn header_bar_height(c: AppConfig) -> int {
    if c.window_style == WindowStyle::HideToolbar {
        0
    } else if c.compact_mode {
        COMPACT_HEADER_BAR_HEIGHT as int
    } else {
        DEFAULT_HEADER_BAR_HEIGHT as int
    }
}

pub open spec fn tab_bar_height(c: AppConfig) -> int {
    if !c.show_tab_bar {
        0
    } else if c.compact_mode {
        COMPACT_TAB_BAR_HEIGHT as int
    } else {
        DEFAULT_TAB_BAR_HEIGHT as int
    }
}

pub open spec fn pane_header_height(c: AppConfig) -> int {
    if c.pane_title_style == PaneTitleStyle::Hidden || !c.pane_title_show_when_single {
        0
    } else if c.compact_mode {
        COMPACT_PANE_HEADER_HEIGHT as int
    } else {
        DEFAULT_PANE_HEADER_HEIGHT as int
    }
}

pub open spec fn at_least_one(n: u32) -> int {
    if n == 0 { 1 } else { n as int }
}

/// Width of the terminal grid with its scrollbar and margins, for a cell width `w`.
pub open spec fn raw_width(p: Profile, w: int) -> int {
    at_least_one(p.default_size_columns) * w
        + (if p.show_scrollbar { DEFAULT_SCROLLBAR_WIDTH as int } else { 0 })
        + 2 * (p.draw_margin as int)
}

/// Height of the terminal grid with the pane header and the window chrome, for a cell height `h`.
pub open spec fn raw_height(p: Profile, c: AppConfig, h: int) -> int {
    at_least_one(p.default_size_rows) * h + pane_header_height(c) + header_bar_height(c)
        + tab_bar_height(c)
}

/// The window size before any clamping: the grid's size, or the default window size.
pub open spec fn unclamped_size(p: Profile, c: AppConfig, cell: Option<(i32, i32)>) -> (int, int) {
    match cell {
        Some((w, h)) => if w > 0 && h > 0 {
            (raw_width(p, w as int), raw_height(p, c, h as int))
        } else {
            (DEFAULT_WINDOW_WIDTH as int, DEFAULT_WINDOW_HEIGHT as int)
        },
        None => (DEFAULT_WINDOW_WIDTH as int, DEFAULT_WINDOW_HEIGHT as int),
    }
}

/// Nine tenths of a monitor dimension, rounded half up.
pub open spec fn monitor_bound(m: int) -> int {
    (9 * m + 5) / 10
}

pub open spec fn clamp_int(v: int, lo: int, hi: int) -> int {
    if v < lo { lo } else if v > hi { hi } else { v }
}

pub open spec fn min_int(a: int, b: int) -> int {
    if a <= b { a } else { b }
}

pub open spec fn max_int(a: int, b: int) -> int {
    if a >= b { a } else { b }
}

/// The window size for a profile and a configuration, given a measured cell size and
/// the size of the monitor the window opens on.
pub open spec fn window_size(
    p: Profile,
    c: AppConfig,
    cell: Option<(i32, i32)>,
    monitor: Option<(i32, i32)>,
) -> (int, int) {
    let (w, h) = unclamped_size(p, c, cell);
    match monitor {
        Some((mw, mh)) => if mw > 0 && mh > 0 {
            let max_w = monitor_bound(mw as int);
            let max_h = monitor_bound(mh as int);
            (
                clamp_int(w, min_int(MIN_WINDOW_WIDTH as int, max_w), max_w),
                clamp_int(h, min_int(MIN_WINDOW_HEIGHT as int, max_h), max_h),
            )
        } else {
            (max_int(w, MIN_WINDOW_WIDTH as int), max_int(h, MIN_WINDOW_HEIGHT as int))
        },
        None => (max_int(w, MIN_WINDOW_WIDTH as int), max_int(h, MIN_WINDOW_HEIGHT as int)),
    }
}

/// The sizes fit the integer type that the window system takes.
pub open spec fn size_fits(p: Profile, c: AppConfig, cell: Option<(i32, i32)>) -> bool {
    cell_usable(cell) ==> {
        let (w, h) = unclamped_size(p, c, cell);
        &&& p.default_size_columns <= i32::MAX
        &&& p.default_size_rows <= i32::MAX
        &&& p.draw_margin <= i32::MAX
        &&& w <= i32::MAX
        &&& h <= i32::MAX
    }
}

/// Nine tenths of a positive monitor dimension, rounded half up.
fn monitor_max(m: i32) -> (r: i32)
    requires
        m > 0,
    ensures
        r == monitor_bound(m as int),
        0 < r <= m,
{
    let wide: i64 = (m as i64) * 9 + 5;
    (wide / 10) as i32
}

/// Whether the window size for this profile, configuration and cell size fits the integer
/// type the window system takes, as `calculate_window_size_from_cell_size` needs.
pub fn window_size_fits(profile: &Profile, app_config: &AppConfig, cell_size: Option<(i32, i32)>) -> (b: bool)
    ensures
        b == size_fits(*profile, *app_config, cell_size),
{
    match cell_size {
        Some((w, h)) => {
            if !(w > 0 && h > 0) {
                return true;
            }
            let big: i128 = i32::MAX as i128;
            let cols: i128 = if profile.default_size_columns == 0 {
                1
            } else {
                profile.default_size_columns as i128
            };
            let rows: i128 = if profile.default_size_rows == 0 {
                1
            } else {
                profile.default_size_rows as i128
            };
            let scrollbar_w: i128 = if profile.show_scrollbar { DEFAULT_SCROLLBAR_WIDTH as i128 } else { 0 };
            let margin: i128 = profile.draw_margin as i128;
            let header_bar_h: i128 = if app_config.window_style == WindowStyle::HideToolbar {
                0
            } else if app_config.compact_mode {
                COMPACT_HEADER_BAR_HEIGHT as i128
            } else {
                DEFAULT_HEADER_BAR_HEIGHT as i128
            };
            let tab_bar_h: i128 = if !app_config.show_tab_bar {
                0
            } else if app_config.compact_mode {
                COMPACT_TAB_BAR_HEIGHT as i128
            } else {
                DEFAULT_TAB_BAR_HEIGHT as i128
            };
            let pane_header_h: i128 = if app_config.pane_title_style == PaneTitleStyle::Hidden
                || !app_config.pane_title_show_when_single {
                0
            } else if app_config.compact_mode {
                COMPACT_PANE_HEADER_HEIGHT as i128
            } else {
                DEFAULT_PANE_HEADER_HEIGHT as i128
            };
            assert(0 < cols * (w as i128) <= 0xffff_ffff * 0x7fff_ffff) by (nonlinear_arith)
                requires
                    1 <= cols <= 0xffff_ffff,
                    0 < w <= 0x7fff_ffff,
            ;
            assert(0 < rows * (h as i128) <= 0xffff_ffff * 0x7fff_ffff) by (nonlinear_arith)
                requires
                    1 <= rows <= 0xffff_ffff,
                    0 < h <= 0x7fff_ffff,
            ;
            let raw_w: i128 = cols * (w as i128) + scrollbar_w + 2 * margin;
            let raw_h: i128 = rows * (h as i128) + pane_header_h + header_bar_h + tab_bar_h;
            profile.default_size_columns as i128 <= big && profile.default_size_rows as i128 <= big
                && margin <= big && raw_w <= big && raw_h <= big
        },
        None => true,
    }
}

/// Computes the target window size from explicit cell dimensions and the optional monitor
/// size. Without a usable cell size the default window size is used. The result is at least
/// the minimum window size, and with a monitor at most nine tenths of it (the minimum
/// giving way to that bound on small monitors).
pub fn calculate_window_size_from_cell_size(
    profile: &Profile,
    app_config: &AppConfig,
    cell_size: Option<(i32, i32)>,
    monitor_size: Option<(i32, i32)>,
) -> (size: (i32, i32))
    requires
        size_fits(*profile, *app_config, cell_size),
    ensures
        size.0 == window_size(*profile, *app_config, cell_size, monitor_size).0,
        size.1 == window_size(*profile, *app_config, cell_size, monitor_size).1,
{
    let (raw_w, raw_h): (i32, i32) = match cell_size {
        Some((w, h)) if w > 0 && h > 0 => {
            let cols: i32 = if profile.default_size_columns == 0 {
                1
            } else {
                profile.default_size_columns as i32
            };
            let rows: i32 = if profile.default_size_rows == 0 {
                1
            } else {
                profile.default_size_rows as i32
            };
            let scrollbar_w: i32 = if profile.show_scrollbar { DEFAULT_SCROLLBAR_WIDTH } else { 0 };
            let margin: i32 = profile.draw_margin as i32;

            let (header_bar_base, tab_bar_base, pane_header_base): (i32, i32, i32) =
                if app_config.compact_mode {
                (COMPACT_HEADER_BAR_HEIGHT, COMPACT_TAB_BAR_HEIGHT, COMPACT_PANE_HEADER_HEIGHT)
            } else {
                (DEFAULT_HEADER_BAR_HEIGHT, DEFAULT_TAB_BAR_HEIGHT, DEFAULT_PANE_HEADER_HEIGHT)
            };
            let pane_header_h: i32 = if app_config.pane_title_style != PaneTitleStyle::Hidden
                && app_config.pane_title_show_when_single {
                pane_header_base
            } else {
                0
            };
            let header_bar_h: i32 = if app_config.window_style != WindowStyle::HideToolbar {
                header_bar_base
            } else {
                0
            };
            let tab_bar_h: i32 = if app_config.show_tab_bar { tab_bar_base } else { 0 };

            assert(0 <= cols * w <= raw_width(*profile, w as int)) by (nonlinear_arith)
                requires
                    cols >= 1,
                    w > 0,
                    raw_width(*profile, w as int) == cols * w + scrollbar_w + 2 * margin,
                    scrollbar_w >= 0,
                    margin >= 0,
            ;
            assert(0 <= rows * h <= raw_height(*profile, *app_config, h as int)) by (nonlinear_arith)
                requires
                    rows >= 1,
                    h > 0,
                    raw_height(*profile, *app_config, h as int) == rows * h + pane_header_h
                        + header_bar_h + tab_bar_h,
                    pane_header_h >= 0,
                    header_bar_h >= 0,
                    tab_bar_h >= 0,
            ;
            let term_w: i32 = cols * w + scrollbar_w + margin * 2;
            let term_h: i32 = rows * h + pane_header_h;
            (term_w, term_h + header_bar_h + tab_bar_h)
        },
        _ => (DEFAULT_WINDOW_WIDTH, DEFAULT_WINDOW_HEIGHT),
    };

    if let Some((mon_w, mon_h)) = monitor_size {
        if mon_w > 0 && mon_h > 0 {
            let max_w = monitor_max(mon_w);
            let max_h = monitor_max(mon_h);
            let min_w: i32 = if MIN_WINDOW_WIDTH <= max_w { MIN_WINDOW_WIDTH } else { max_w };
            let min_h: i32 = if MIN_WINDOW_HEIGHT <= max_h { MIN_WINDOW_HEIGHT } else { max_h };
            let clamped_w: i32 = if raw_w < min_w { min_w } else if raw_w > max_w { max_w } else { raw_w };
            let clamped_h: i32 = if raw_h < min_h { min_h } else if raw_h > max_h { max_h } else { raw_h };
            return (clamped_w, clamped_h);
        }
    }
    let clamped_w: i32 = if raw_w >= MIN_WINDOW_WIDTH { raw_w } else { MIN_WINDOW_WIDTH };
    let clamped_h: i32 = if raw_h >= MIN_WINDOW_HEIGHT { raw_h } else { MIN_WINDOW_HEIGHT };
    (clamped_w, clamped_h)
}

/// Without a monitor the window is never smaller than the minimum window size; with a
/// monitor it never exceeds nine tenths of it, and is at least the minimum window size
/// or that bound, whichever is smaller.
pub proof fn lemma_window_size_bounds(
    p: Profile,
    c: AppConfig,
    cell: Option<(i32, i32)>,
    monitor: Option<(i32, i32)>,
)
    ensures
        ({
            let (w, h) = window_size(p, c, cell, monitor);
            match monitor {
                Some((mw, mh)) => if mw > 0 && mh > 0 {
                    &&& min_int(MIN_WINDOW_WIDTH as int, monitor_bound(mw as int)) <= w
                    &&& w <= monitor_bound(mw as int)
                    &&& min_int(MIN_WINDOW_HEIGHT as int, monitor_bound(mh as int)) <= h
                    &&& h <= monitor_bound(mh as int)
                } else {
                    w >= MIN_WINDOW_WIDTH && h >= MIN_WINDOW_HEIGHT
                },
                None => w >= MIN_WINDOW_WIDTH && h >= MIN_WINDOW_HEIGHT,
            }
        }),
{
}

/// Compact mode leaves the width of a window unchanged, and takes from its height exactly
/// the difference between the full and the compact heights of each bar that is shown:
/// 18 for the header bar, 16 for the tab bar and 14 for the pane header.
pub proof fn lemma_compact_mode_height_delta(p: Profile, c: AppConfig, cell: Option<(i32, i32)>)
    requires
        !c.compact_mode,
    ensures
        ({
            let compact = AppConfig { compact_mode: true, ..c };
            let (nw, nh) = unclamped_size(p, c, cell);
            let (cw, ch) = unclamped_size(p, compact, cell);
            &&& nw == cw
            &&& cell_usable(cell) ==> nh - ch == (if c.window_style == WindowStyle::HideToolbar {
                0int
            } else {
                18
            }) + (if c.show_tab_bar {
                16int
            } else {
                0
            }) + (if c.pane_title_style == PaneTitleStyle::Hidden || !c.pane_title_show_when_single {
                0int
            } else {
                14
            })
            &&& !cell_usable(cell) ==> nh == ch
        }),
{
}

/// The width of a window depends on the profile and the cell size alone, not on the
/// chrome settings.
pub proof fn lemma_width_independent_of_chrome(
    p: Profile,
    c1: AppConfig,
    c2: AppConfig,
    cell: Option<(i32, i32)>,
)
    ensures
        unclamped_size(p, c1, cell).0 == unclamped_size(p, c2, cell).0,
{
}

} // verus!
