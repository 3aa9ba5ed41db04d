use vstd::prelude::*;

use crate::text::{
    chars_of, last_index_of, parse_i32, parse_i32_spec, push_signed_decimal,
    rfind, signed_decimal, split_whitespace, trim, trimmed, views, ws_fields,
};
use crate::types::{default_profile, Align, DockPosition, ExitActionPreference, PaneId, Profile};

verus! {

/// Font scale steps are tenths: the scale of a pane is `font_scale / 10`.
pub const ZOOM_STEP: u32 = 1;
/// The smallest font scale, in tenths.
pub const ZOOM_MIN: u32 = 2;
/// The largest font scale, in tenths.
pub const ZOOM_MAX: u32 = 50;
/// The normal font scale, in tenths.
pub const ZOOM_NORMAL: u32 = 10;

/// The font scale one step larger, within the allowed range.
pub open spec fn zoomed_in(scale: u32) -> u32 {
    if scale + ZOOM_STEP > ZOOM_MAX {
        ZOOM_MAX
    } else if scale + ZOOM_STEP < ZOOM_MIN {
        ZOOM_MIN
    } else {
        (scale + ZOOM_STEP) as u32
    }
}

/// The font scale one step smaller, within the allowed range.
pub open spec fn zoomed_out(scale: u32) -> u32 {
    if scale < ZOOM_MIN + ZOOM_STEP {
        ZOOM_MIN
    } else if scale - ZOOM_STEP > ZOOM_MAX {
        ZOOM_MAX
    } else {
        (scale - ZOOM_STEP) as u32
    }
}

/// What a pane does once its child process has exited.
#[derive(Clone, Copy, Debug, PartialEq, Eq, Structural)]
pub enum ExitReaction {
    /// The pane is already closing: nothing is reported and nothing is done.
    Ignore,
    /// Exit handlers run, then the pane closes and close handlers run.
    Close,
    /// Exit handlers run, then the profile's command is started again.
    Restart,
    /// Exit handlers run, then the title shows the exit status.
    Hold,
}

/// Where and how large the drop indicator of a pane is drawn: alignments and the
/// requested size, -1 leaving a dimension to the layout.
#[derive(Clone, Copy, Debug, PartialEq, Eq, Structural)]
pub struct DropIndicatorLayout {
    pub halign: Align,
    pub valign: Align,
    pub width_request: i32,
    pub height_request: i32,
}

/// The plain state of a terminal pane.
pub ghost struct PaneView {
    pub pane_id: PaneId,
    pub font_scale: u32,
    pub sync_enabled: bool,
    pub closing: bool,
    pub raw_title: Seq<char>,
    pub child_pid: Option<i32>,
    pub profile: Profile,
    pub header_visible: bool,
    pub drop_indicator: Option<DockPosition>,
    pub active: bool,
}

/// The state of a terminal pane that its widgets show: its identity, font scale,
/// input synchronisation, lifecycle, title, child process, profile and overlays.
pub struct TerminalPane {
    pane_id: PaneId,
    font_scale: u32,
    sync_enabled: bool,
    closing: bool,
    raw_title: String,
    child_pid: Option<i32>,
    profile: Profile,
    header_visible: bool,
    drop_indicator: Option<DockPosition>,
    active: bool,
}

impl View for TerminalPane {
    type V = PaneView;

    closed spec fn view(&self) -> PaneView {
        PaneView {
            pane_id: self.pane_id,
            font_scale: self.font_scale,
            sync_enabled: self.sync_enabled,
            closing: self.closing,
            raw_title: self.raw_title@,
            child_pid: self.child_pid,
            profile: self.profile,
            header_visible: self.header_visible,
            drop_indicator: self.drop_indicator,
            active: self.active,
        }
    }
}

impl TerminalPane {
    #[verifier::type_invariant]
    closed spec fn scale_in_range(&self) -> bool {
        ZOOM_MIN <= self.font_scale <= ZOOM_MAX
    }

    /// Whether the font scale lies in the allowed range; it always does.
    pub open spec fn wf(&self) -> bool {
        ZOOM_MIN <= self@.font_scale <= ZOOM_MAX
    }

    /// A new pane: normal font scale, synchronised input on, not closing, titled
    /// "Terminal", no child yet, the default profile, header shown, no drop indicator,
    /// not active.
    pub fn new(pane_id: PaneId) -> (p: Self)
        ensures
            p@.pane_id == pane_id,
            p@.font_scale == ZOOM_NORMAL,
            p@.sync_enabled,
            !p@.closing,
            p@.raw_title == "Terminal"@,
            p@.child_pid is None,
            p@.profile == default_profile(),
            p@.header_visible,
            p@.drop_indicator is None,
            !p@.active,
    {
        TerminalPane {
            pane_id,
            font_scale: ZOOM_NORMAL,
            sync_enabled: true,
            closing: false,
            raw_title: String::from_str("Terminal"),
            child_pid: None,
            profile: Profile::default(),
            header_visible: true,
            drop_indicator: None,
            active: false,
        }
    }

    /// The pane's identifier.
    pub fn pane_id(&self) -> (id: PaneId)
        ensures
            id == self@.pane_id,
    {
        self.pane_id
    }

    /// Whether the pane is closing.
    pub fn is_closing(&self) -> (b: bool)
        ensures
            b == self@.closing,
    {
        self.closing
    }

    /// Marks the pane as closing; nothing else changes.
    pub fn close(&mut self)
        ensures
            final(self)@ == (PaneView { closing: true, ..old(self)@ }),
    {
        proof {
            use_type_invariant(&*self);
        }
        self.closing = true;
    }

    /// The close button was pressed: the first press marks the pane as closing and asks
    /// for the close handlers to run (`true`); later presses do nothing (`false`).
    pub fn request_close(&mut self) -> (fire: bool)
        ensures
            fire == !old(self)@.closing,
            final(self)@ == (PaneView { closing: true, ..old(self)@ }),
    {
        proof {
            use_type_invariant(&*self);
        }
        let fire = !self.closing;
        self.closing = true;
        fire
    }

    /// Whether input typed in this pane is broadcast and broadcast input is received.
    pub fn is_sync_enabled(&self) -> (b: bool)
        ensures
            b == self@.sync_enabled,
    {
        self.sync_enabled
    }

    /// Turns input synchronisation of this pane on or off; nothing else changes.
    pub fn set_sync_enabled(&mut self, enabled: bool)
        ensures
            final(self)@ == (PaneView { sync_enabled: enabled, ..old(self)@ }),
    {
        proof {
            use_type_invariant(&*self);
        }
        self.sync_enabled = enabled;
    }

    /// The title last set by the terminal program, before title tokens are expanded.
    pub fn raw_title(&self) -> (t: String)
        ensures
            t@ == self@.raw_title,
    {
        self.raw_title.clone()
    }

    /// Sets the raw title; nothing else changes.
    pub fn set_title(&mut self, title: &str)
        ensures
            final(self)@ == (PaneView { raw_title: title@, ..old(self)@ }),
    {
        proof {
            use_type_invariant(&*self);
        }
        self.raw_title = String::from_str(title);
    }

    /// The font scale, in tenths.
    pub fn font_scale(&self) -> (scale: u32)
        ensures
            scale == self@.font_scale,
            ZOOM_MIN <= scale <= ZOOM_MAX,
    {
        proof {
            use_type_invariant(self);
        }
        self.font_scale
    }

    /// Makes the font one step larger, up to the largest scale; nothing else changes.
    pub fn zoom_in(&mut self)
        ensures
            final(self)@ == (PaneView { font_scale: zoomed_in(old(self)@.font_scale), ..old(self)@ }),
    {
        proof {
            use_type_invariant(&*self);
        }
        let next: u32 = if self.font_scale + ZOOM_STEP > ZOOM_MAX {
            ZOOM_MAX
        } else {
            self.font_scale + ZOOM_STEP
        };
        self.font_scale = next;
    }

    /// Makes the font one step smaller, down to the smallest scale; nothing else changes.
    pub fn zoom_out(&mut self)
        ensures
            final(self)@ == (PaneView { font_scale: zoomed_out(old(self)@.font_scale), ..old(self)@ }),
    {
        proof {
            use_type_invariant(&*self);
        }
        let next: u32 = if self.font_scale < ZOOM_MIN + ZOOM_STEP {
            ZOOM_MIN
        } else {
            self.font_scale - ZOOM_STEP
        };
        self.font_scale = next;
    }

    /// Restores the normal font scale; nothing else changes.
    pub fn zoom_normal(&mut self)
        ensures
            final(self)@ == (PaneView { font_scale: ZOOM_NORMAL, ..old(self)@ }),
    {
        proof {
            use_type_invariant(&*self);
        }
        self.font_scale = ZOOM_NORMAL;
    }

    /// The profile the pane uses.
    pub fn current_profile(&self) -> (p: Profile)
        ensures
            p == self@.profile,
    {
        self.profile
    }

    /// Switches the pane to a profile; nothing else changes.
    pub fn apply_profile(&mut self, profile: &Profile)
        ensures
            final(self)@ == (PaneView { profile: *profile, ..old(self)@ }),
    {
        proof {
            use_type_invariant(&*self);
        }
        self.profile = *profile;
    }

    /// Whether the pane draws a translucent background.
    pub fn is_transparent(&self) -> (b: bool)
        ensures
            b == (self@.profile.background_transparency_percent > 0),
    {
        self.profile.background_transparency_percent > 0
    }

    /// The process id of the pane's child, if one runs.
    pub fn child_pid(&self) -> (pid: Option<i32>)
        ensures
            pid == self@.child_pid,
    {
        self.child_pid
    }

    /// Records the process id of a child that was started; nothing else changes.
    pub fn child_spawned(&mut self, pid: i32)
        ensures
            final(self)@ == (PaneView { child_pid: Some(pid), ..old(self)@ }),
    {
        proof {
            use_type_invariant(&*self);
        }
        self.child_pid = Some(pid);
    }

    /// The child process exited. The pane forgets its process id; unless it is already
    /// closing, the profile's exit action decides what follows, and the close action
    /// marks the pane as closing.
    pub fn child_exited(&mut self) -> (r: ExitReaction)
        ensures
            r == (if old(self)@.closing {
                ExitReaction::Ignore
            } else {
                match old(self)@.profile.exit_action {
                    ExitActionPreference::Close => ExitReaction::Close,
                    ExitActionPreference::Restart => ExitReaction::Restart,
                    ExitActionPreference::Hold => ExitReaction::Hold,
                }
            }),
            final(self)@ == (PaneView {
                child_pid: None,
                closing: old(self)@.closing || r == ExitReaction::Close,
                ..old(self)@
            }),
    {
        proof {
            use_type_invariant(&*self);
        }
        self.child_pid = None;
        if self.closing {
            return ExitReaction::Ignore;
        }
        match self.profile.exit_action {
            ExitActionPreference::Close => {
                self.closing = true;
                ExitReaction::Close
            },
            ExitActionPreference::Restart => ExitReaction::Restart,
            ExitActionPreference::Hold => ExitReaction::Hold,
        }
    }

    /// Shows or hides the pane's title bar; nothing else changes.
    pub fn set_header_visible(&mut self, visible: bool)
        ensures
            final(self)@ == (PaneView { header_visible: visible, ..old(self)@ }),
    {
        proof {
            use_type_invariant(&*self);
        }
        self.header_visible = visible;
    }

    /// Whether the pane's title bar is shown.
    pub fn is_header_visible(&self) -> (b: bool)
        ensures
            b == self@.header_visible,
    {
        self.header_visible
    }

    /// Shows the drop indicator for a dock position over a pane of the given size, and
    /// returns where and how large it is drawn.
    pub fn show_drop_indicator(&mut self, position: DockPosition, width: i32, height: i32) -> (layout: DropIndicatorLayout)
        ensures
            layout == drop_indicator_layout_spec(position, width, height),
            final(self)@ == (PaneView { drop_indicator: Some(position), ..old(self)@ }),
    {
        proof {
            use_type_invariant(&*self);
        }
        self.drop_indicator = Some(position);
        drop_indicator_layout(position, width, height)
    }

    /// Hides the drop indicator; nothing else changes.
    pub fn hide_drop_indicator(&mut self)
        ensures
            final(self)@ == (PaneView { drop_indicator: None, ..old(self)@ }),
    {
        proof {
            use_type_invariant(&*self);
        }
        self.drop_indicator = None;
    }

    /// Whether the drop indicator is shown.
    pub fn is_drop_indicator_visible(&self) -> (b: bool)
        ensures
            b == self@.drop_indicator is Some,
    {
        self.drop_indicator.is_some()
    }

    /// Marks the pane as the active one or not, and returns the opacity of its terminal in
    /// percent: full when active, otherwise reduced by the profile's dim percentage.
    pub fn set_active(&mut self, active: bool) -> (opacity_percent: u32)
        ensures
            opacity_percent == (if active {
                100
            } else {
                unfocused_opacity_percent(old(self)@.profile.dim_transparency_percent)
            }),
            final(self)@ == (PaneView { active: active, ..old(self)@ }),
    {
        proof {
            use_type_invariant(&*self);
        }
        self.active = active;
        if active {
            100
        } else {
            terminal_opacity_percent(self.profile.dim_transparency_percent)
        }
    }

    /// Whether the pane is the active one of its session.
    pub fn is_active(&self) -> (b: bool)
        ensures
            b == self@.active,
    {
        self.active
    }
}

/// The opacity, in percent, of an unfocused terminal dimmed by `dim` percent.
pub open spec fn unfocused_opacity_percent(dim: u32) -> u32 {
    if dim > 100 {
        0
    } else {
        (100 - dim) as u32
    }
}

/// The opacity, in percent, of an unfocused terminal dimmed by `dim` percent: 100 less the
/// dim percentage, which counts at most 100.
pub fn terminal_opacity_percent(dim: u32) -> (opacity: u32)
    ensures
        opacity == unfocused_opacity_percent(dim),
        opacity <= 100,
{
    if dim > 100 {
        0
    } else {
        100 - dim
    }
}

/// The opacity, in percent, of a background made `transparency` percent transparent.
pub fn background_alpha_percent(transparency: u32) -> (alpha: u32)
    ensures
        alpha == unfocused_opacity_percent(transparency),
        alpha <= 100,
        transparency == 0 ==> alpha == 100,
{
    terminal_opacity_percent(transparency)
}

pub open spec fn half_at_least_20(len: i32) -> i32 {
    let half = len / 2;
    if half >= 20 { half as i32 } else { 20 }
}

/// Where the drop indicator for a dock position goes over a pane of the given size.
pub open spec fn drop_indicator_layout_spec(position: DockPosition, width: i32, height: i32) -> DropIndicatorLayout {
    match position {
        DockPosition::Top => DropIndicatorLayout {
            halign: Align::Fill,
            valign: Align::Start,
            width_request: -1i32,
            height_request: half_at_least_20(height),
        },
        DockPosition::Bottom => DropIndicatorLayout {
            halign: Align::Fill,
            valign: Align::End,
            width_request: -1i32,
            height_request: half_at_least_20(height),
        },
        DockPosition::Left => DropIndicatorLayout {
            halign: Align::Start,
            valign: Align::Fill,
            width_request: half_at_least_20(width),
            height_request: -1i32,
        },
        DockPosition::Right => DropIndicatorLayout {
            halign: Align::End,
            valign: Align::Fill,
            width_request: half_at_least_20(width),
            height_request: -1i32,
        },
        DockPosition::Center => DropIndicatorLayout {
            halign: Align::Fill,
            valign: Align::Fill,
            width_request: -1i32,
            height_request: -1i32,
        },
    }
}

fn half_or_20(len: i32) -> (r: i32)
    ensures
        r == half_at_least_20(len),
{
    let half = len / 2;
    if half >= 20 {
        half
    } else {
        20
    }
}

/// The drop indicator covers the half of the pane on the side of the dock position
/// (at least 20 pixels), or the whole pane for the center.
pub fn drop_indicator_layout(position: DockPosition, width: i32, height: i32) -> (layout: DropIndicatorLayout)
    ensures
        layout == drop_indicator_layout_spec(position, width, height),
{
    match position {
        DockPosition::Top => DropIndicatorLayout {
            halign: Align::Fill,
            valign: Align::Start,
            width_request: -1,
            height_request: half_or_20(height),
        },
        DockPosition::Bottom => DropIndicatorLayout {
            halign: Align::Fill,
            valign: Align::End,
            width_request: -1,
            height_request: half_or_20(height),
        },
        DockPosition::Left => DropIndicatorLayout {
            halign: Align::Start,
            valign: Align::Fill,
            width_request: half_or_20(width),
            height_request: -1,
        },
        DockPosition::Right => DropIndicatorLayout {
            halign: Align::End,
            valign: Align::Fill,
            width_request: half_or_20(width),
            height_request: -1,
        },
        DockPosition::Center => DropIndicatorLayout {
            halign: Align::Fill,
            valign: Align::Fill,
            width_request: -1,
            height_request: -1,
        },
    }
}

/// The stretch, from its first pixel to the one after its last, that a widget aligned by
/// `align` with the size request `request` takes of an allocation `len` pixels long.
pub open spec fn aligned_span(align: Align, request: i32, len: int) -> (int, int) {
    match align {
        Align::Fill => (0, len),
        Align::Start => (0, request as int),
        Align::End => (len - request, len),
    }
}

/// The alignment mirrored: the start and the end exchanged.
pub open spec fn mirrored(align: Align) -> Align {
    match align {
        Align::Start => Align::End,
        Align::End => Align::Start,
        Align::Fill => Align::Fill,
    }
}

/// The drop indicator lies on the side of the pane where the dragged pane will dock: the
/// left, right, top or bottom stretch of the pane, as deep as half the pane and at least 20
/// pixels, across its whole breadth; the whole pane for the centre. Right mirrors left and
/// bottom mirrors top.
pub proof fn lemma_drop_indicator_side(position: DockPosition, width: i32, height: i32)
    ensures
        ({
            let l = drop_indicator_layout_spec(position, width, height);
            let across = aligned_span(l.halign, l.width_request, width as int);
            let down = aligned_span(l.valign, l.height_request, height as int);
            let dw = half_at_least_20(width) as int;
            let dh = half_at_least_20(height) as int;
            &&& position == DockPosition::Left ==> across == (0int, dw) && down == (0int, height as int)
            &&& position == DockPosition::Right ==> across == (width - dw, width as int) && down == (
                0int,
                height as int,
            )
            &&& position == DockPosition::Top ==> across == (0int, width as int) && down == (0int, dh)
            &&& position == DockPosition::Bottom ==> across == (0int, width as int) && down == (
                height - dh,
                height as int,
            )
            &&& position == DockPosition::Center ==> across == (0int, width as int) && down == (
                0int,
                height as int,
            )
        }),
        drop_indicator_layout_spec(DockPosition::Right, width, height) == (DropIndicatorLayout {
            halign: mirrored(drop_indicator_layout_spec(DockPosition::Left, width, height).halign),
            ..drop_indicator_layout_spec(DockPosition::Left, width, height)
        }),
        drop_indicator_layout_spec(DockPosition::Bottom, width, height) == (DropIndicatorLayout {
            valign: mirrored(drop_indicator_layout_spec(DockPosition::Top, width, height).valign),
            ..drop_indicator_layout_spec(DockPosition::Top, width, height)
        }),
{
}

/// Zooming in and then out returns to the scale one started from, below the largest
/// scale; zooming out and then in does so above the smallest.
pub proof fn lemma_zoom_in_out_inverse(scale: u32)
    requires
        ZOOM_MIN <= scale <= ZOOM_MAX,
    ensures
        scale < ZOOM_MAX ==> zoomed_out(zoomed_in(scale)) == scale,
        scale > ZOOM_MIN ==> zoomed_in(zoomed_out(scale)) == scale,
{
}

/// Zooming keeps the font scale in the allowed range, never decreases it when zooming
/// in and never increases it when zooming out.
pub proof fn lemma_zoom_stays_in_range(scale: u32)
    requires
        ZOOM_MIN <= scale <= ZOOM_MAX,
    ensures
        ZOOM_MIN <= zoomed_in(scale) <= ZOOM_MAX,
        ZOOM_MIN <= zoomed_out(scale) <= ZOOM_MAX,
        zoomed_in(scale) >= scale,
        zoomed_out(scale) <= scale,
{
}

/// The font scale after zooming in `k` times from `scale`.
pub open spec fn zoomed_in_times(scale: u32, k: nat) -> u32
    decreases k,
{
    if k == 0 {
        scale
    } else {
        zoomed_in(zoomed_in_times(scale, (k - 1) as nat))
    }
}

/// Zooming in `k` times adds `k` steps, stopping at the largest scale.
pub proof fn lemma_zoom_in_repeated(scale: u32, k: nat)
    requires
        ZOOM_MIN <= scale <= ZOOM_MAX,
    ensures
        zoomed_in_times(scale, k) == (if scale + k >= ZOOM_MAX {
            ZOOM_MAX as int
        } else {
            scale + k
        }),
    decreases k,
{
    if k > 0 {
        lemma_zoom_in_repeated(scale, (k - 1) as nat);
    }
}

/// The sixth field after the last `)` of a `/proc/<pid>/stat` line, which is the
/// foreground process group of the process's terminal, when it is a positive number.
pub open spec fn stat_tpgid(stat: Seq<char>) -> Option<int> {
    let r = last_index_of(stat, ')');
    if r < 0 {
        None
    } else {
        let fields = ws_fields(stat.subrange(r + 1, stat.len() as int));
        if fields.len() > 5 {
            match parse_i32_spec(fields[5]) {
                Some(v) => if v > 0 {
                    Some(v)
                } else {
                    None
                },
                None => None,
            }
        } else {
            None
        }
    }
}

/// Reads the foreground process group of a shell's terminal from the contents of the
/// shell's `/proc/<pid>/stat`: the sixth field after the command name, if it is a
/// positive number.
pub fn parse_stat_tpgid(stat: &str) -> (pgid: Option<i32>)
    ensures
        match pgid {
            Some(v) => stat_tpgid(stat@) == Some(v as int),
            None => stat_tpgid(stat@) is None,
        },
{
    let chars = chars_of(stat);
    let Some(rparen) = rfind(&chars, ')') else {
        return None;
    };
    let n = chars.len();
    let mut rest: Vec<char> = Vec::new();
    let mut i: usize = rparen + 1;
    while i < n
        invariant
            chars@ == stat@,
            n == chars.len(),
            rparen < n,
            rparen + 1 <= i <= n,
            rest@ == stat@.subrange(rparen + 1, i as int),
        decreases n - i,
    {
        rest.push(chars[i]);
        assert(stat@.subrange(rparen + 1, i + 1) =~= stat@.subrange(rparen + 1, i as int).push(
            stat@[i as int],
        ));
        i = i + 1;
    }
    let fields = split_whitespace(&rest);
    if fields.len() <= 5 {
        return None;
    }
    assert(views(fields@)[5] == fields@[5]@);
    match parse_i32(&fields[5]) {
        Some(v) => if v > 0 {
            Some(v)
        } else {
            None
        },
        None => None,
    }
}

/// The process whose command name titles a pane: the foreground process of the
/// terminal if there is one, else the shell.
pub fn comm_target_pid(foreground: Option<i32>, shell_pid: i32) -> (pid: i32)
    ensures
        pid == (match foreground {
            Some(f) => f,
            None => shell_pid,
        }),
{
    match foreground {
        Some(f) => f,
        None => shell_pid,
    }
}

/// The command name from the contents of `/proc/<pid>/comm`, without surrounding
/// white space.
pub fn comm_name(contents: &str) -> (name: String)
    ensures
        name@ == trimmed(contents@),
{
    trim(contents)
}

/// The working directory shown for a pane, and what the pane caches: the directory of the
/// terminal's foreground process, else that of the shell, else the cached one, else the
/// directory of this program. A directory read from a process replaces the cached one.
pub fn resolve_directory(
    foreground_cwd: Option<String>,
    shell_cwd: Option<String>,
    cached: Option<String>,
    program_cwd: Option<String>,
) -> (r: (Option<String>, Option<String>))
    ensures
        r == (match foreground_cwd {
            Some(d) => (Some(d), Some(d)),
            None => match shell_cwd {
                Some(d) => (Some(d), Some(d)),
                None => match cached {
                    Some(d) => (Some(d), Some(d)),
                    None => (program_cwd, None),
                },
            },
        }),
{
    match foreground_cwd {
        Some(d) => (Some(d.clone()), Some(d)),
        None => match shell_cwd {
            Some(d) => (Some(d.clone()), Some(d)),
            None => match cached {
                Some(d) => (Some(d.clone()), Some(d)),
                None => (program_cwd, None),
            },
        },
    }
}

/// The title of a pane held open after its process exited.
pub open spec fn held_title_spec(title: Seq<char>, status: int) -> Seq<char> {
    title + " [Process exited: "@ + signed_decimal(status) + "]"@
}

/// The title a held pane shows: its title followed by the exit status.
pub fn held_title(title: &str, status: i32) -> (r: String)
    ensures
        r@ == held_title_spec(title@, status as int),
{
    let mut r = String::from_str(title);
    r.append(" [Process exited: ");
    push_signed_decimal(&mut r, status as i64);
    r.append("]");
    r
}

/// The rows and columns told to the pseudo-terminal: the terminal's own counts when it has
/// laid itself out (truncated to 16 bits), else 24 rows and 80 columns.
pub fn pty_window_size(rows: i64, cols: i64) -> (size: (u16, u16))
    ensures
        size.0 == (if rows > 0 { rows as u16 } else { 24 }),
        size.1 == (if cols > 0 { cols as u16 } else { 80 }),
{
    let r: u16 = if rows > 0 { rows as u16 } else { 24 };
    let c: u16 = if cols > 0 { cols as u16 } else { 80 };
    (r, c)
}

/// The rows and columns a new pseudo-terminal starts with: the terminal's own counts when
/// it has laid itself out, else the profile's size but at least 24 rows and 80 columns
/// (each truncated to 16 bits).
pub fn spawn_window_size(rows: i64, cols: i64, profile: &Profile) -> (size: (u16, u16))
    ensures
        size.0 == (if rows > 0 {
            rows as u16
        } else if profile.default_size_rows >= 24 {
            profile.default_size_rows as u16
        } else {
            24
        }),
        size.1 == (if cols > 0 {
            cols as u16
        } else if profile.default_size_columns >= 80 {
            profile.default_size_columns as u16
        } else {
            80
        }),
{
    let r: u16 = if rows > 0 {
        rows as u16
    } else if profile.default_size_rows >= 24 {
        profile.default_size_rows as u16
    } else {
        24
    };
    let c: u16 = if cols > 0 {
        cols as u16
    } else if profile.default_size_columns >= 80 {
        profile.default_size_columns as u16
    } else {
        80
    };
    (r, c)
}

/// The columns and rows a terminal is sized to from its profile: at least one of each.
pub fn default_grid_size(profile: &Profile) -> (size: (u32, u32))
    ensures
        size.0 == (if profile.default_size_columns == 0 { 1 } else { profile.default_size_columns }),
        size.1 == (if profile.default_size_rows == 0 { 1 } else { profile.default_size_rows }),
        size.0 >= 1,
        size.1 >= 1,
{
    let c: u32 = if profile.default_size_columns == 0 { 1 } else { profile.default_size_columns };
    let r: u32 = if profile.default_size_rows == 0 { 1 } else { profile.default_size_rows };
    (c, r)
}

/// Corner of a pane in which its badge is drawn.
#[derive(Clone, Copy, Debug, PartialEq, Eq, Structural)]
pub enum BadgePosition {
    Northwest,
    Northeast,
    Southwest,
    Southeast,
}

/// Horizontal and vertical alignment of a badge in its corner.
pub fn badge_alignment(position: BadgePosition) -> (a: (Align, Align))
    ensures
        a == (match position {
            BadgePosition::Northwest => (Align::Start, Align::Start),
            BadgePosition::Northeast => (Align::End, Align::Start),
            BadgePosition::Southwest => (Align::Start, Align::End),
            BadgePosition::Southeast => (Align::End, Align::End),
        }),
{
    match position {
        BadgePosition::Northwest => (Align::Start, Align::Start),
        BadgePosition::Northeast => (Align::End, Align::Start),
        BadgePosition::Southwest => (Align::Start, Align::End),
        BadgePosition::Southeast => (Align::End, Align::End),
    }
}

/// A badge is shown when its text is not blank.
pub fn badge_visible(badge_text: &str) -> (b: bool)
    ensures
        b == (trimmed(badge_text@).len() > 0),
{
    let t = trim(badge_text);
    t.unicode_len() > 0
}

/// What a scroll over a terminal does to its font.
#[derive(Clone, Copy, Debug, PartialEq, Eq, Structural)]
pub enum ScrollZoom {
    /// The scroll is the terminal's: it scrolls the content.
    Pass,
    ZoomIn,
    ZoomOut,
}

/// Scrolling with Control alone held zooms: up zooms in, down zooms out; a scroll without
/// vertical movement, or with other modifiers, scrolls the content. `direction` is the
/// sign of the vertical movement.
pub fn scroll_zoom(control: bool, shift: bool, alt: bool, direction: i32) -> (z: ScrollZoom)
    ensures
        z == (if control && !shift && !alt {
            if direction < 0 {
                ScrollZoom::ZoomIn
            } else if direction > 0 {
                ScrollZoom::ZoomOut
            } else {
                ScrollZoom::Pass
            }
        } else {
            ScrollZoom::Pass
        }),
{
    if control && !shift && !alt {
        if direction < 0 {
            ScrollZoom::ZoomIn
        } else if direction > 0 {
            ScrollZoom::ZoomOut
        } else {
            ScrollZoom::Pass
        }
    } else {
        ScrollZoom::Pass
    }
}

/// The scrollback a terminal is given: unlimited (-1), the profile's limit, or, with
/// neither, no change.
pub fn scrollback_setting(unlimited: bool, lines: Option<i64>) -> (r: Option<i64>)
    ensures
        r == (if unlimited {
            Some(-1i64)
        } else {
            lines
        }),
{
    if unlimited {
        Some(-1)
    } else {
        lines
    }
}

/// The cursor colors a terminal is given, background then foreground: the profile's own
/// when it sets them, else the color scheme's cursor with its foreground, else none.
pub fn resolve_cursor_colors<C: Copy>(
    cursor_colors_set: bool,
    cursor_background: Option<C>,
    cursor_foreground: Option<C>,
    scheme_cursor: Option<C>,
    scheme_cursor_foreground: Option<C>,
) -> (r: (Option<C>, Option<C>))
    ensures
        r == (if cursor_colors_set {
            (cursor_background, cursor_foreground)
        } else if scheme_cursor is Some {
            (scheme_cursor, scheme_cursor_foreground)
        } else {
            (None, None)
        }),
{
    if cursor_colors_set {
        (cursor_background, cursor_foreground)
    } else if scheme_cursor.is_some() {
        (scheme_cursor, scheme_cursor_foreground)
    } else {
        (None, None)
    }
}

/// A color that the profile overrides only when it says so: the color when `set`, else
/// none.
pub fn override_color<C: Copy>(set: bool, color: Option<C>) -> (r: Option<C>)
    ensures
        r == (if set {
            color
        } else {
            None
        }),
{
    if set {
        color
    } else {
        None
    }
}

/// The automatic profile switch a pane makes: the first rule that matches the host and
/// directory, names a profile other than the current one, and names a profile that
/// exists. Each rule is given as whether it matches, whether its profile is the current
/// one, and whether its profile exists.
pub open spec fn first_switch_rule(rules: Seq<(bool, bool, bool)>) -> Option<int>
    decreases rules.len(),
{
    if rules.len() == 0 {
        None
    } else if rules[0].0 && !rules[0].1 && rules[0].2 {
        Some(0)
    } else {
        match first_switch_rule(rules.drop_first()) {
            Some(i) => Some(i + 1),
            None => None,
        }
    }
}

/// The index of the rule an automatic profile switch follows, if any.
pub fn select_switch_rule(rules: &Vec<(bool, bool, bool)>) -> (r: Option<usize>)
    ensures
        match r {
            Some(i) => first_switch_rule(rules@) == Some(i as int),
            None => first_switch_rule(rules@) is None,
        },
{
    let n = rules.len();
    let mut i: usize = 0;
    assert(rules@.subrange(0, n as int) =~= rules@);
    while i < n
        invariant
            n == rules.len(),
            0 <= i <= n,
            first_switch_rule(rules@) == (match first_switch_rule(rules@.subrange(i as int, n as int)) {
                Some(k) => Some(k + i),
                None => None,
            }),
        decreases n - i,
    {
        let rule = rules[i];
        let ghost rest = rules@.subrange(i as int, n as int);
        assert(rest.drop_first() =~= rules@.subrange(i + 1, n as int));
        assert(rest[0] == rule);
        if rule.0 && !rule.1 && rule.2 {
            return Some(i);
        }
        i = i + 1;
    }
    proof {
        assert(rules@.subrange(n as int, n as int) =~= Seq::<(bool, bool, bool)>::empty());
    }
    None
}

} // verus!
