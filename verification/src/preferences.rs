use vstd::prelude::*;

use crate::terminal_pane::BadgePosition;
use crate::text::{chars_of, lowercase, push_char, str_eq, to_lowercase, trim, trimmed};
use crate::types::{ExitActionPreference, PaneTitleStyle, WindowStyle};

verus! {

/// Where a title being edited is shown, which decides the tokens it may hold.
#[derive(Clone, Copy, Debug, PartialEq, Eq, Structural)]
pub enum TitleEditScope {
    Terminal,
    Session,
    Window,
}

/// Which groups of title tokens the token menu offers besides the terminal tokens.
#[derive(Clone, Copy, Debug, PartialEq, Eq, Structural)]
pub struct TokenSections {
    pub session: bool,
    pub window: bool,
}

/// Which groups of title tokens the token menu offers for a scope: terminal tokens
/// always, session tokens for session and window titles, window tokens for window
/// titles only.
pub fn token_sections(scope: TitleEditScope) -> (t: TokenSections)
    ensures
        t.session == (scope == TitleEditScope::Session || scope == TitleEditScope::Window),
        t.window == (scope == TitleEditScope::Window),
{
    match scope {
        TitleEditScope::Terminal => TokenSections { session: false, window: false },
        TitleEditScope::Session => TokenSections { session: true, window: false },
        TitleEditScope::Window => TokenSections { session: true, window: true },
    }
}

/// How blinking text is drawn.
#[derive(Clone, Copy, Debug, PartialEq, Eq, Structural)]
pub enum TextBlinkMode {
    Never,
    Focused,
    Unfocused,
    Always,
}

/// The shape of the cursor.
#[derive(Clone, Copy, Debug, PartialEq, Eq, Structural)]
pub enum CursorShape {
    Block,
    IBeam,
    Underline,
}

/// Whether the cursor blinks.
#[derive(Clone, Copy, Debug, PartialEq, Eq, Structural)]
pub enum CursorBlink {
    System,
    On,
    Off,
}

/// What a terminal bell does.
#[derive(Clone, Copy, Debug, PartialEq, Eq, Structural)]
pub enum TerminalBell {
    Silent,
    Sound,
    Icon,
    IconSound,
}

/// What the backspace or delete key sends.
#[derive(Clone, Copy, Debug, PartialEq, Eq, Structural)]
pub enum EraseBinding {
    Auto,
    AsciiBackspace,
    AsciiDelete,
    DeleteSequence,
    Tty,
}

/// How wide characters of ambiguous width are drawn.
#[derive(Clone, Copy, Debug, PartialEq, Eq, Structural)]
pub enum CjkWidth {
    Narrow,
    Wide,
}

/// The built-in color schemes the scheme list offers, in list order.
#[derive(Clone, Copy, Debug, PartialEq, Eq, Structural)]
pub enum ColorSchemeChoice {
    TilixDark,
    TilixLight,
    SolarizedDark,
    Monokai,
}

/// The list position of a text blink mode.
pub open spec fn text_blink_index_spec(v: TextBlinkMode) -> u32 {
    match v {
        TextBlinkMode::Never => 0u32,
        TextBlinkMode::Focused => 1,
        TextBlinkMode::Unfocused => 2,
        TextBlinkMode::Always => 3,
    }
}

/// The text blink mode at a list position; never for any other position.
pub open spec fn text_blink_from_index_spec(i: u32) -> TextBlinkMode {
    if i == 1 {
        TextBlinkMode::Focused
    } else if i == 2 {
        TextBlinkMode::Unfocused
    } else if i == 3 {
        TextBlinkMode::Always
    } else {
        TextBlinkMode::Never
    }
}

/// The list position of a text blink mode.
pub fn text_blink_index(v: TextBlinkMode) -> (i: u32)
    ensures
        i == text_blink_index_spec(v),
{
    match v {
        TextBlinkMode::Never => 0,
        TextBlinkMode::Focused => 1,
        TextBlinkMode::Unfocused => 2,
        TextBlinkMode::Always => 3,
    }
}

/// The text blink mode at a list position; never for any other position.
pub fn text_blink_from_index(i: u32) -> (v: TextBlinkMode)
    ensures
        v == text_blink_from_index_spec(i),
{
    match i {
        1 => TextBlinkMode::Focused,
        2 => TextBlinkMode::Unfocused,
        3 => TextBlinkMode::Always,
        _ => TextBlinkMode::Never,
    }
}

/// The list position of a cursor shape.
pub open spec fn cursor_shape_index_spec(v: CursorShape) -> u32 {
    match v {
        CursorShape::Block => 0u32,
        CursorShape::IBeam => 1,
        CursorShape::Underline => 2,
    }
}

/// The cursor shape at a list position; the block for any other position.
pub open spec fn cursor_shape_from_index_spec(i: u32) -> CursorShape {
    if i == 1 {
        CursorShape::IBeam
    } else if i == 2 {
        CursorShape::Underline
    } else {
        CursorShape::Block
    }
}

/// The list position of a cursor shape.
pub fn cursor_shape_index(v: CursorShape) -> (i: u32)
    ensures
        i == cursor_shape_index_spec(v),
{
    match v {
        CursorShape::Block => 0,
        CursorShape::IBeam => 1,
        CursorShape::Underline => 2,
    }
}

/// The cursor shape at a list position; the block for any other position.
pub fn cursor_shape_from_index(i: u32) -> (v: CursorShape)
    ensures
        v == cursor_shape_from_index_spec(i),
{
    match i {
        1 => CursorShape::IBeam,
        2 => CursorShape::Underline,
        _ => CursorShape::Block,
    }
}

/// The list position of a cursor blink setting.
pub open spec fn cursor_blink_index_spec(v: CursorBlink) -> u32 {
    match v {
        CursorBlink::System => 0u32,
        CursorBlink::On => 1,
        CursorBlink::Off => 2,
    }
}

/// The cursor blink setting at a list position; the system setting for any other position.
pub open spec fn cursor_blink_from_index_spec(i: u32) -> CursorBlink {
    if i == 1 {
        CursorBlink::On
    } else if i == 2 {
        CursorBlink::Off
    } else {
        CursorBlink::System
    }
}

/// The list position of a cursor blink setting.
pub fn cursor_blink_index(v: CursorBlink) -> (i: u32)
    ensures
        i == cursor_blink_index_spec(v),
{
    match v {
        CursorBlink::System => 0,
        CursorBlink::On => 1,
        CursorBlink::Off => 2,
    }
}

/// The cursor blink setting at a list position; the system setting for any other position.
pub fn cursor_blink_from_index(i: u32) -> (v: CursorBlink)
    ensures
        v == cursor_blink_from_index_spec(i),
{
    match i {
        1 => CursorBlink::On,
        2 => CursorBlink::Off,
        _ => CursorBlink::System,
    }
}

/// The list position of a bell setting.
pub open spec fn bell_index_spec(v: TerminalBell) -> u32 {
    match v {
        TerminalBell::Silent => 0u32,
        TerminalBell::Sound => 1,
        TerminalBell::Icon => 2,
        TerminalBell::IconSound => 3,
    }
}

/// The bell setting at a list position; the sound for any other position.
pub open spec fn bell_from_index_spec(i: u32) -> TerminalBell {
    if i == 0 {
        TerminalBell::Silent
    } else if i == 2 {
        TerminalBell::Icon
    } else if i == 3 {
        TerminalBell::IconSound
    } else {
        TerminalBell::Sound
    }
}

/// The list position of a bell setting.
pub fn bell_index(v: TerminalBell) -> (i: u32)
    ensures
        i == bell_index_spec(v),
{
    match v {
        TerminalBell::Silent => 0,
        TerminalBell::Sound => 1,
        TerminalBell::Icon => 2,
        TerminalBell::IconSound => 3,
    }
}

/// The bell setting at a list position; the sound for any other position.
pub fn bell_from_index(i: u32) -> (v: TerminalBell)
    ensures
        v == bell_from_index_spec(i),
{
    match i {
        0 => TerminalBell::Silent,
        2 => TerminalBell::Icon,
        3 => TerminalBell::IconSound,
        _ => TerminalBell::Sound,
    }
}

/// The list position of a exit action.
pub open spec fn exit_action_index_spec(v: ExitActionPreference) -> u32 {
    match v {
        ExitActionPreference::Close => 0u32,
        ExitActionPreference::Restart => 1,
        ExitActionPreference::Hold => 2,
    }
}

/// The exit action at a list position; closing for any other position.
pub open spec fn exit_action_from_index_spec(i: u32) -> ExitActionPreference {
    if i == 1 {
        ExitActionPreference::Restart
    } else if i == 2 {
        ExitActionPreference::Hold
    } else {
        ExitActionPreference::Close
    }
}

/// The list position of a exit action.
pub fn exit_action_index(v: ExitActionPreference) -> (i: u32)
    ensures
        i == exit_action_index_spec(v),
{
    match v {
        ExitActionPreference::Close => 0,
        ExitActionPreference::Restart => 1,
        ExitActionPreference::Hold => 2,
    }
}

/// The exit action at a list position; closing for any other position.
pub fn exit_action_from_index(i: u32) -> (v: ExitActionPreference)
    ensures
        v == exit_action_from_index_spec(i),
{
    match i {
        1 => ExitActionPreference::Restart,
        2 => ExitActionPreference::Hold,
        _ => ExitActionPreference::Close,
    }
}

/// The list position of a erase binding.
pub open spec fn erase_binding_index_spec(v: EraseBinding) -> u32 {
    match v {
        EraseBinding::Auto => 0u32,
        EraseBinding::AsciiBackspace => 1,
        EraseBinding::AsciiDelete => 2,
        EraseBinding::DeleteSequence => 3,
        EraseBinding::Tty => 4,
    }
}

/// The erase binding at a list position; automatic for any other position.
pub open spec fn erase_binding_from_index_spec(i: u32) -> EraseBinding {
    if i == 1 {
        EraseBinding::AsciiBackspace
    } else if i == 2 {
        EraseBinding::AsciiDelete
    } else if i == 3 {
        EraseBinding::DeleteSequence
    } else if i == 4 {
        EraseBinding::Tty
    } else {
        EraseBinding::Auto
    }
}

/// The list position of a erase binding.
pub fn erase_binding_index(v: EraseBinding) -> (i: u32)
    ensures
        i == erase_binding_index_spec(v),
{
    match v {
        EraseBinding::Auto => 0,
        EraseBinding::AsciiBackspace => 1,
        EraseBinding::AsciiDelete => 2,
        EraseBinding::DeleteSequence => 3,
        EraseBinding::Tty => 4,
    }
}

/// The erase binding at a list position; automatic for any other position.
pub fn erase_binding_from_index(i: u32) -> (v: EraseBinding)
    ensures
        v == erase_binding_from_index_spec(i),
{
    match i {
        1 => EraseBinding::AsciiBackspace,
        2 => EraseBinding::AsciiDelete,
        3 => EraseBinding::DeleteSequence,
        4 => EraseBinding::Tty,
        _ => EraseBinding::Auto,
    }
}

/// The list position of a ambiguous-width setting.
pub open spec fn cjk_width_index_spec(v: CjkWidth) -> u32 {
    match v {
        CjkWidth::Narrow => 0u32,
        CjkWidth::Wide => 1,
    }
}

/// The ambiguous-width setting at a list position; narrow for any other position.
pub open spec fn cjk_width_from_index_spec(i: u32) -> CjkWidth {
    if i == 1 {
        CjkWidth::Wide
    } else {
        CjkWidth::Narrow
    }
}

/// The list position of a ambiguous-width setting.
pub fn cjk_width_index(v: CjkWidth) -> (i: u32)
    ensures
        i == cjk_width_index_spec(v),
{
    match v {
        CjkWidth::Narrow => 0,
        CjkWidth::Wide => 1,
    }
}

/// The ambiguous-width setting at a list position; narrow for any other position.
pub fn cjk_width_from_index(i: u32) -> (v: CjkWidth)
    ensures
        v == cjk_width_from_index_spec(i),
{
    match i {
        1 => CjkWidth::Wide,
        _ => CjkWidth::Narrow,
    }
}

/// The list position of a badge corner.
pub open spec fn badge_position_index_spec(v: BadgePosition) -> u32 {
    match v {
        BadgePosition::Northwest => 0u32,
        BadgePosition::Northeast => 1,
        BadgePosition::Southwest => 2,
        BadgePosition::Southeast => 3,
    }
}

/// The badge corner at a list position; the top right for any other position.
pub open spec fn badge_position_from_index_spec(i: u32) -> BadgePosition {
    if i == 0 {
        BadgePosition::Northwest
    } else if i == 2 {
        BadgePosition::Southwest
    } else if i == 3 {
        BadgePosition::Southeast
    } else {
        BadgePosition::Northeast
    }
}

/// The list position of a badge corner.
pub fn badge_position_index(v: BadgePosition) -> (i: u32)
    ensures
        i == badge_position_index_spec(v),
{
    match v {
        BadgePosition::Northwest => 0,
        BadgePosition::Northeast => 1,
        BadgePosition::Southwest => 2,
        BadgePosition::Southeast => 3,
    }
}

/// The badge corner at a list position; the top right for any other position.
pub fn badge_position_from_index(i: u32) -> (v: BadgePosition)
    ensures
        v == badge_position_from_index_spec(i),
{
    match i {
        0 => BadgePosition::Northwest,
        2 => BadgePosition::Southwest,
        3 => BadgePosition::Southeast,
        _ => BadgePosition::Northeast,
    }
}

/// The list position of a window style.
pub open spec fn window_style_index_spec(v: WindowStyle) -> u32 {
    match v {
        WindowStyle::Normal => 0u32,
        WindowStyle::HideToolbar => 1,
    }
}

/// The window style at a list position; the normal style for any other position.
pub open spec fn window_style_from_index_spec(i: u32) -> WindowStyle {
    if i == 1 {
        WindowStyle::HideToolbar
    } else {
        WindowStyle::Normal
    }
}

/// The list position of a window style.
pub fn window_style_index(v: WindowStyle) -> (i: u32)
    ensures
        i == window_style_index_spec(v),
{
    match v {
        WindowStyle::Normal => 0,
        WindowStyle::HideToolbar => 1,
    }
}

/// The window style at a list position; the normal style for any other position.
pub fn window_style_from_index(i: u32) -> (v: WindowStyle)
    ensures
        v == window_style_from_index_spec(i),
{
    match i {
        1 => WindowStyle::HideToolbar,
        _ => WindowStyle::Normal,
    }
}

/// The list position of a pane title style.
pub open spec fn pane_title_style_index_spec(v: PaneTitleStyle) -> u32 {
    match v {
        PaneTitleStyle::Normal => 0u32,
        PaneTitleStyle::Hidden => 1,
    }
}

/// The pane title style at a list position; the normal style for any other position.
pub open spec fn pane_title_style_from_index_spec(i: u32) -> PaneTitleStyle {
    if i == 1 {
        PaneTitleStyle::Hidden
    } else {
        PaneTitleStyle::Normal
    }
}

/// The list position of a pane title style.
pub fn pane_title_style_index(v: PaneTitleStyle) -> (i: u32)
    ensures
        i == pane_title_style_index_spec(v),
{
    match v {
        PaneTitleStyle::Normal => 0,
        PaneTitleStyle::Hidden => 1,
    }
}

/// The pane title style at a list position; the normal style for any other position.
pub fn pane_title_style_from_index(i: u32) -> (v: PaneTitleStyle)
    ensures
        v == pane_title_style_from_index_spec(i),
{
    match i {
        1 => PaneTitleStyle::Hidden,
        _ => PaneTitleStyle::Normal,
    }
}

/// Every setting shown in a list comes back unchanged when read from its position, and
/// every position of a list comes back from the setting read there.
pub proof fn lemma_list_positions_round_trip()
    ensures
        forall|v: TextBlinkMode| #[trigger] text_blink_from_index_spec(text_blink_index_spec(v)) == v,
        forall|i: u32| i < 4 ==> #[trigger] text_blink_index_spec(text_blink_from_index_spec(i)) == i,
        forall|v: CursorShape| #[trigger] cursor_shape_from_index_spec(cursor_shape_index_spec(v)) == v,
        forall|i: u32| i < 3 ==> #[trigger] cursor_shape_index_spec(cursor_shape_from_index_spec(i)) == i,
        forall|v: CursorBlink| #[trigger] cursor_blink_from_index_spec(cursor_blink_index_spec(v)) == v,
        forall|i: u32| i < 3 ==> #[trigger] cursor_blink_index_spec(cursor_blink_from_index_spec(i)) == i,
        forall|v: TerminalBell| #[trigger] bell_from_index_spec(bell_index_spec(v)) == v,
        forall|i: u32| i < 4 ==> #[trigger] bell_index_spec(bell_from_index_spec(i)) == i,
        forall|v: ExitActionPreference| #[trigger] exit_action_from_index_spec(exit_action_index_spec(v)) == v,
        forall|i: u32| i < 3 ==> #[trigger] exit_action_index_spec(exit_action_from_index_spec(i)) == i,
        forall|v: EraseBinding| #[trigger] erase_binding_from_index_spec(erase_binding_index_spec(v)) == v,
        forall|i: u32| i < 5 ==> #[trigger] erase_binding_index_spec(erase_binding_from_index_spec(i)) == i,
        forall|v: CjkWidth| #[trigger] cjk_width_from_index_spec(cjk_width_index_spec(v)) == v,
        forall|i: u32| i < 2 ==> #[trigger] cjk_width_index_spec(cjk_width_from_index_spec(i)) == i,
        forall|v: BadgePosition| #[trigger] badge_position_from_index_spec(badge_position_index_spec(v)) == v,
        forall|i: u32| i < 4 ==> #[trigger] badge_position_index_spec(badge_position_from_index_spec(i)) == i,
        forall|v: WindowStyle| #[trigger] window_style_from_index_spec(window_style_index_spec(v)) == v,
        forall|i: u32| i < 2 ==> #[trigger] window_style_index_spec(window_style_from_index_spec(i)) == i,
        forall|v: PaneTitleStyle| #[trigger] pane_title_style_from_index_spec(pane_title_style_index_spec(v)) == v,
        forall|i: u32| i < 2 ==> #[trigger] pane_title_style_index_spec(pane_title_style_from_index_spec(i)) == i,
{
}

/// The entries of the text blink list, in list order.
pub open spec fn text_blink_entries() -> Seq<Seq<char>> {
    seq!["Never"@, "Focused"@, "Unfocused"@, "Always"@]
}

/// The entry of the text blink list that names a blink mode.
pub open spec fn text_blink_entry(v: TextBlinkMode) -> Seq<char> {
    match v {
        TextBlinkMode::Never => "Never"@,
        TextBlinkMode::Focused => "Focused"@,
        TextBlinkMode::Unfocused => "Unfocused"@,
        TextBlinkMode::Always => "Always"@,
    }
}

/// The entries of the cursor shape list, in list order.
pub open spec fn cursor_shape_entries() -> Seq<Seq<char>> {
    seq!["Block"@, "I-Beam"@, "Underline"@]
}

/// The entry of the cursor shape list that names a cursor shape.
pub open spec fn cursor_shape_entry(v: CursorShape) -> Seq<char> {
    match v {
        CursorShape::Block => "Block"@,
        CursorShape::IBeam => "I-Beam"@,
        CursorShape::Underline => "Underline"@,
    }
}

/// The entries of the cursor blink list, in list order.
pub open spec fn cursor_blink_entries() -> Seq<Seq<char>> {
    seq!["System"@, "On"@, "Off"@]
}

/// The entry of the cursor blink list that names a cursor blink setting.
pub open spec fn cursor_blink_entry(v: CursorBlink) -> Seq<char> {
    match v {
        CursorBlink::System => "System"@,
        CursorBlink::On => "On"@,
        CursorBlink::Off => "Off"@,
    }
}

/// The entries of the bell list, in list order.
pub open spec fn bell_entries() -> Seq<Seq<char>> {
    seq!["None"@, "Sound"@, "Icon"@, "Icon and sound"@]
}

/// The entry of the bell list that names a bell setting.
pub open spec fn bell_entry(v: TerminalBell) -> Seq<char> {
    match v {
        TerminalBell::Silent => "None"@,
        TerminalBell::Sound => "Sound"@,
        TerminalBell::Icon => "Icon"@,
        TerminalBell::IconSound => "Icon and sound"@,
    }
}

/// The entries of the exit action list, in list order.
pub open spec fn exit_action_entries() -> Seq<Seq<char>> {
    seq!["Exit the terminal"@, "Restart the command"@, "Hold the terminal open"@]
}

/// The entry of the exit action list that names a exit action.
pub open spec fn exit_action_entry(v: ExitActionPreference) -> Seq<char> {
    match v {
        ExitActionPreference::Close => "Exit the terminal"@,
        ExitActionPreference::Restart => "Restart the command"@,
        ExitActionPreference::Hold => "Hold the terminal open"@,
    }
}

/// The entries of the backspace and delete lists, in list order.
pub open spec fn erase_binding_entries() -> Seq<Seq<char>> {
    seq!["Automatic"@, "Control-H"@, "ASCII DEL"@, "Escape sequence"@, "TTY"@]
}

/// The entry of the backspace and delete lists that names a erase binding.
pub open spec fn erase_binding_entry(v: EraseBinding) -> Seq<char> {
    match v {
        EraseBinding::Auto => "Automatic"@,
        EraseBinding::AsciiBackspace => "Control-H"@,
        EraseBinding::AsciiDelete => "ASCII DEL"@,
        EraseBinding::DeleteSequence => "Escape sequence"@,
        EraseBinding::Tty => "TTY"@,
    }
}

/// The entries of the ambiguous width list, in list order.
pub open spec fn cjk_width_entries() -> Seq<Seq<char>> {
    seq!["Narrow"@, "Wide"@]
}

/// The entry of the ambiguous width list that names a width.
pub open spec fn cjk_width_entry(v: CjkWidth) -> Seq<char> {
    match v {
        CjkWidth::Narrow => "Narrow"@,
        CjkWidth::Wide => "Wide"@,
    }
}

/// The entries of the badge position list, in list order.
pub open spec fn badge_position_entries() -> Seq<Seq<char>> {
    seq!["Northwest"@, "Northeast"@, "Southwest"@, "Southeast"@]
}

/// The entry of the badge position list that names a badge corner.
pub open spec fn badge_position_entry(v: BadgePosition) -> Seq<char> {
    match v {
        BadgePosition::Northwest => "Northwest"@,
        BadgePosition::Northeast => "Northeast"@,
        BadgePosition::Southwest => "Southwest"@,
        BadgePosition::Southeast => "Southeast"@,
    }
}

/// The entries of the window style list, in list order.
pub open spec fn window_style_entries() -> Seq<Seq<char>> {
    seq!["Normal"@, "Hide Toolbar"@]
}

/// The entry of the window style list that names a window style.
pub open spec fn window_style_entry(v: WindowStyle) -> Seq<char> {
    match v {
        WindowStyle::Normal => "Normal"@,
        WindowStyle::HideToolbar => "Hide Toolbar"@,
    }
}

/// The entries of the pane title style list, in list order.
pub open spec fn pane_title_style_entries() -> Seq<Seq<char>> {
    seq!["Normal"@, "None"@]
}

/// The entry of the pane title style list that names a pane title style.
pub open spec fn pane_title_style_entry(v: PaneTitleStyle) -> Seq<char> {
    match v {
        PaneTitleStyle::Normal => "Normal"@,
        PaneTitleStyle::Hidden => "None"@,
    }
}

/// Each setting sits in its list at the entry that names it, and the entry at each
/// position of a list names the setting read from that position.
pub proof fn lemma_list_positions_follow_entries()
    ensures
        forall|v: TextBlinkMode| #[trigger] text_blink_entries()[text_blink_index_spec(v) as int] == text_blink_entry(v),
        forall|i: u32| i < text_blink_entries().len() ==> #[trigger] text_blink_entry(text_blink_from_index_spec(i)) == text_blink_entries()[i as int],
        forall|v: CursorShape| #[trigger] cursor_shape_entries()[cursor_shape_index_spec(v) as int] == cursor_shape_entry(v),
        forall|i: u32| i < cursor_shape_entries().len() ==> #[trigger] cursor_shape_entry(cursor_shape_from_index_spec(i)) == cursor_shape_entries()[i as int],
        forall|v: CursorBlink| #[trigger] cursor_blink_entries()[cursor_blink_index_spec(v) as int] == cursor_blink_entry(v),
        forall|i: u32| i < cursor_blink_entries().len() ==> #[trigger] cursor_blink_entry(cursor_blink_from_index_spec(i)) == cursor_blink_entries()[i as int],
        forall|v: TerminalBell| #[trigger] bell_entries()[bell_index_spec(v) as int] == bell_entry(v),
        forall|i: u32| i < bell_entries().len() ==> #[trigger] bell_entry(bell_from_index_spec(i)) == bell_entries()[i as int],
        forall|v: ExitActionPreference| #[trigger] exit_action_entries()[exit_action_index_spec(v) as int] == exit_action_entry(v),
        forall|i: u32| i < exit_action_entries().len() ==> #[trigger] exit_action_entry(exit_action_from_index_spec(i)) == exit_action_entries()[i as int],
        forall|v: EraseBinding| #[trigger] erase_binding_entries()[erase_binding_index_spec(v) as int] == erase_binding_entry(v),
        forall|i: u32| i < erase_binding_entries().len() ==> #[trigger] erase_binding_entry(erase_binding_from_index_spec(i)) == erase_binding_entries()[i as int],
        forall|v: CjkWidth| #[trigger] cjk_width_entries()[cjk_width_index_spec(v) as int] == cjk_width_entry(v),
        forall|i: u32| i < cjk_width_entries().len() ==> #[trigger] cjk_width_entry(cjk_width_from_index_spec(i)) == cjk_width_entries()[i as int],
        forall|v: BadgePosition| #[trigger] badge_position_entries()[badge_position_index_spec(v) as int] == badge_position_entry(v),
        forall|i: u32| i < badge_position_entries().len() ==> #[trigger] badge_position_entry(badge_position_from_index_spec(i)) == badge_position_entries()[i as int],
        forall|v: WindowStyle| #[trigger] window_style_entries()[window_style_index_spec(v) as int] == window_style_entry(v),
        forall|i: u32| i < window_style_entries().len() ==> #[trigger] window_style_entry(window_style_from_index_spec(i)) == window_style_entries()[i as int],
        forall|v: PaneTitleStyle| #[trigger] pane_title_style_entries()[pane_title_style_index_spec(v) as int] == pane_title_style_entry(v),
        forall|i: u32| i < pane_title_style_entries().len() ==> #[trigger] pane_title_style_entry(pane_title_style_from_index_spec(i)) == pane_title_style_entries()[i as int],
{
}

/// The list position of a text encoding: UTF-8 and any encoding the list does not
/// offer come first.
pub open spec fn encoding_index_spec(e: Seq<char>) -> u32 {
    if e == "ISO-8859-1"@ {
        1
    } else if e == "Windows-1252"@ {
        2
    } else if e == "US-ASCII"@ {
        3
    } else {
        0
    }
}

/// The list position of a text encoding (see `encoding_index_spec`).
pub fn encoding_index(e: &str) -> (i: u32)
    ensures
        i == encoding_index_spec(e@),
{
    if str_eq(e, "ISO-8859-1") {
        1
    } else if str_eq(e, "Windows-1252") {
        2
    } else if str_eq(e, "US-ASCII") {
        3
    } else {
        0
    }
}

/// The text encoding at a list position: UTF-8 for the first and for any other.
pub open spec fn encoding_from_index_spec(i: u32) -> Seq<char> {
    if i == 1 {
        "ISO-8859-1"@
    } else if i == 2 {
        "Windows-1252"@
    } else if i == 3 {
        "US-ASCII"@
    } else {
        "UTF-8"@
    }
}

/// The text encoding at a list position (see `encoding_from_index_spec`).
pub fn encoding_from_index(i: u32) -> (e: String)
    ensures
        e@ == encoding_from_index_spec(i),
{
    match i {
        1 => String::from_str("ISO-8859-1"),
        2 => String::from_str("Windows-1252"),
        3 => String::from_str("US-ASCII"),
        _ => String::from_str("UTF-8"),
    }
}

/// The list position of a color scheme by its name: the four built-in schemes first,
/// any other scheme (a custom one) last.
pub open spec fn color_scheme_index_spec(name: Seq<char>) -> u32 {
    if name == "Tilix Dark"@ {
        0
    } else if name == "Tilix Light"@ {
        1
    } else if name == "Solarized Dark"@ {
        2
    } else if name == "Monokai"@ {
        3
    } else {
        4
    }
}

/// The list position of a color scheme by its name (see `color_scheme_index_spec`).
pub fn color_scheme_index(name: &str) -> (i: u32)
    ensures
        i == color_scheme_index_spec(name@),
{
    if str_eq(name, "Tilix Dark") {
        0
    } else if str_eq(name, "Tilix Light") {
        1
    } else if str_eq(name, "Solarized Dark") {
        2
    } else if str_eq(name, "Monokai") {
        3
    } else {
        4
    }
}

/// The built-in scheme a list position selects; none for the custom entry and beyond.
pub fn color_scheme_from_index(i: u32) -> (c: Option<ColorSchemeChoice>)
    ensures
        c == (if i >= 4 {
            None
        } else if i == 1 {
            Some(ColorSchemeChoice::TilixLight)
        } else if i == 2 {
            Some(ColorSchemeChoice::SolarizedDark)
        } else if i == 3 {
            Some(ColorSchemeChoice::Monokai)
        } else {
            Some(ColorSchemeChoice::TilixDark)
        }),
        c is Some ==> color_scheme_name_spec(c->0) == color_scheme_entries()[i as int],
{
    if i >= 4 {
        return None;
    }
    match i {
        1 => Some(ColorSchemeChoice::TilixLight),
        2 => Some(ColorSchemeChoice::SolarizedDark),
        3 => Some(ColorSchemeChoice::Monokai),
        _ => Some(ColorSchemeChoice::TilixDark),
    }
}

/// The name of a built-in scheme.
pub open spec fn color_scheme_name_spec(c: ColorSchemeChoice) -> Seq<char> {
    match c {
        ColorSchemeChoice::TilixDark => "Tilix Dark"@,
        ColorSchemeChoice::TilixLight => "Tilix Light"@,
        ColorSchemeChoice::SolarizedDark => "Solarized Dark"@,
        ColorSchemeChoice::Monokai => "Monokai"@,
    }
}

/// The name of a built-in scheme.
pub fn color_scheme_name(c: ColorSchemeChoice) -> (name: String)
    ensures
        name@ == color_scheme_name_spec(c),
{
    match c {
        ColorSchemeChoice::TilixDark => String::from_str("Tilix Dark"),
        ColorSchemeChoice::TilixLight => String::from_str("Tilix Light"),
        ColorSchemeChoice::SolarizedDark => String::from_str("Solarized Dark"),
        ColorSchemeChoice::Monokai => String::from_str("Monokai"),
    }
}

/// The entries of the text encoding list, in list order.
pub open spec fn encoding_entries() -> Seq<Seq<char>> {
    seq!["UTF-8 Unicode"@, "ISO-8859-1"@, "Windows-1252"@, "US-ASCII"@]
}

/// The entry of the text encoding list that names an encoding: its own name, with
/// "Unicode" added for UTF-8.
pub open spec fn encoding_entry(e: Seq<char>) -> Seq<char> {
    if e == "UTF-8"@ {
        "UTF-8 Unicode"@
    } else {
        e
    }
}

/// The entries of the color scheme list: the built-in schemes, then the custom entry.
pub open spec fn color_scheme_entries() -> Seq<Seq<char>> {
    seq!["Tilix Dark"@, "Tilix Light"@, "Solarized Dark"@, "Monokai"@, "Custom"@]
}

/// The entry at each position of the encoding list names the encoding read from that
/// position, which comes back to the same position; each built-in color scheme sits in
/// its list at the entry of its name.
pub proof fn lemma_named_list_positions()
    ensures
        forall|i: u32| i < 4 ==> #[trigger] encoding_entry(encoding_from_index_spec(i)) == encoding_entries()[i as int],
        forall|i: u32| i < 4 ==> #[trigger] encoding_index_spec(encoding_from_index_spec(i)) == i,
        forall|c: ColorSchemeChoice| #[trigger] color_scheme_entries()[color_scheme_index_spec(color_scheme_name_spec(c)) as int]
            == color_scheme_name_spec(c),
{
    reveal_strlit("UTF-8");
    reveal_strlit("ISO-8859-1");
    reveal_strlit("Windows-1252");
    reveal_strlit("US-ASCII");
    reveal_strlit("Tilix Dark");
    reveal_strlit("Tilix Light");
    reveal_strlit("Solarized Dark");
    reveal_strlit("Monokai");
    assert("UTF-8"@.len() == 5 && "ISO-8859-1"@.len() == 10 && "Windows-1252"@.len() == 12 && "US-ASCII"@.len() == 8);
    assert forall|i: u32| i < 4 implies #[trigger] encoding_index_spec(encoding_from_index_spec(i)) == i by {
        if i == 0 {
            assert("UTF-8"@ != "ISO-8859-1"@ && "UTF-8"@ != "Windows-1252"@ && "UTF-8"@ != "US-ASCII"@);
        } else if i == 2 {
            assert("Windows-1252"@ != "ISO-8859-1"@);
        } else if i == 3 {
            assert("US-ASCII"@ != "ISO-8859-1"@ && "US-ASCII"@ != "Windows-1252"@);
        }
    }
}

/// A profile's entry in the profile list: its name, marked when it is the default
/// profile.
pub fn profile_label(name: &str, id: &str, default_id: &str) -> (label: String)
    ensures
        label@ == (if id@ == default_id@ {
            name@ + " (Default)"@
        } else {
            name@
        }),
{
    let mut label = String::new();
    label.append(name);
    if str_eq(id, default_id) {
        label.append(" (Default)");
    }
    label
}

/// The position of the first profile whose identifier is `current`.
pub open spec fn first_index_of(ids: Seq<Seq<char>>, current: Seq<char>) -> Option<int>
    decreases ids.len(),
{
    if ids.len() == 0 {
        None
    } else if ids[0] == current {
        Some(0)
    } else {
        match first_index_of(ids.drop_first(), current) {
            Some(i) => Some(i + 1),
            None => None,
        }
    }
}

/// The identifiers of a list of profiles.
pub open spec fn string_views(v: Seq<String>) -> Seq<Seq<char>> {
    v.map_values(|s: String| s@)
}

/// The position the profile list selects: that of the profile `current`, or the first
/// when no profile has that identifier.
pub fn selected_profile_index(ids: &Vec<String>, current: &str) -> (i: usize)
    ensures
        i == (match first_index_of(string_views(ids@), current@) {
            Some(k) => k,
            None => 0,
        }),
{
    let n = ids.len();
    proof {
        assert(string_views(ids@).subrange(0, n as int) =~= string_views(ids@));
    }
    for k in 0..n
        invariant
            n == ids.len(),
            first_index_of(string_views(ids@), current@) == (match first_index_of(
                string_views(ids@).subrange(k as int, n as int),
                current@,
            ) {
                Some(j) => Some(j + k),
                None => None,
            }),
    {
        let ghost rest = string_views(ids@).subrange(k as int, n as int);
        proof {
            assert(rest[0] == ids@[k as int]@);
            assert(rest.drop_first() =~= string_views(ids@).subrange(k as int + 1, n as int));
        }
        if str_eq(ids[k].as_str(), current) {
            return k;
        }
    }
    proof {
        assert(string_views(ids@).subrange(n as int, n as int).len() == 0);
    }
    0
}

/// Whether the selected profile may be deleted: only while another profile remains.
pub fn delete_profile_allowed(profile_count: usize) -> (b: bool)
    ensures
        b == (profile_count > 1),
{
    profile_count > 1
}

/// Whether the selected profile may be made the default: only when it is not already.
pub fn set_default_allowed(selected_id: &str, default_id: &str) -> (b: bool)
    ensures
        b == (selected_id@ != default_id@),
{
    !str_eq(selected_id, default_id)
}

/// A rule that switches a terminal to a profile when its host or directory matches.
#[derive(Clone, Debug)]
pub struct ProfileSwitchRule {
    pub hostname: String,
    pub directory: String,
    pub profile_id: String,
}

/// The rule the rule dialog saves: its host name and directory trimmed, none when both
/// are empty.
pub fn switch_rule_from_entries(hostname: &str, directory: &str, profile_id: &str) -> (r: Option<ProfileSwitchRule>)
    ensures
        r is Some == (trimmed(hostname@).len() > 0 || trimmed(directory@).len() > 0),
        r matches Some(rule) ==> rule.hostname@ == trimmed(hostname@) && rule.directory@ == trimmed(directory@)
            && rule.profile_id@ == profile_id@,
{
    let h = trim(hostname);
    let d = trim(directory);
    if h.unicode_len() == 0 && d.unicode_len() == 0 {
        return None;
    }
    let mut id = String::new();
    id.append(profile_id);
    Some(ProfileSwitchRule { hostname: h, directory: d, profile_id: id })
}

/// A rule's entry in the rule list: its host name and directory joined by a colon.
pub fn switch_rule_label(rule: &ProfileSwitchRule) -> (label: String)
    ensures
        label@ == rule.hostname@ + ":"@ + rule.directory@,
{
    let mut label = String::new();
    label.append(rule.hostname.as_str());
    label.append(":");
    label.append(rule.directory.as_str());
    label
}

/// A pattern that turns matching terminal text into a link.
#[derive(Clone, Debug)]
pub struct CustomHyperlinkRule {
    pub name: String,
    pub pattern: String,
    pub uri: String,
}

/// The link rule the link dialog saves: its fields trimmed, none unless it has a name and
/// a pattern.
pub fn custom_link_from_entries(name: &str, pattern: &str, uri: &str) -> (r: Option<CustomHyperlinkRule>)
    ensures
        r is Some == (trimmed(name@).len() > 0 && trimmed(pattern@).len() > 0),
        r matches Some(link) ==> link.name@ == trimmed(name@) && link.pattern@ == trimmed(pattern@) && link.uri@
            == trimmed(uri@),
{
    let n = trim(name);
    let p = trim(pattern);
    let u = trim(uri);
    if n.unicode_len() == 0 || p.unicode_len() == 0 {
        return None;
    }
    Some(CustomHyperlinkRule { name: n, pattern: p, uri: u })
}

/// The pattern as the link list shows it, in parentheses.
pub fn custom_link_pattern_label(pattern: &str) -> (label: String)
    ensures
        label@ == "("@ + pattern@ + ")"@,
{
    let mut label = String::new();
    label.append("(");
    label.append(pattern);
    label.append(")");
    label
}

/// Removes the entry at `idx` from a list, if there is one (`true`).
pub fn remove_at<T>(v: &mut Vec<T>, idx: usize) -> (removed: bool)
    ensures
        removed == (idx < old(v)@.len()),
        final(v)@ == (if removed {
            old(v)@.remove(idx as int)
        } else {
            old(v)@
        }),
{
    if idx < v.len() {
        v.remove(idx);
        true
    } else {
        false
    }
}

/// A key pressed in the shortcut dialog, as far as the dialog tells keys apart.
#[derive(Clone, Copy, Debug, PartialEq, Eq, Structural)]
pub enum ShortcutKey {
    /// Shift, Control, Alt, Super or Meta alone.
    Modifier,
    Escape,
    /// Backspace or Delete.
    Erase,
    /// Any other key; `punctuation` when it types an ASCII punctuation character.
    Other { punctuation: bool },
}

/// The modifiers held with a key.
#[derive(Clone, Copy, Debug, PartialEq, Eq, Structural)]
pub struct KeyModifiers {
    pub control: bool,
    pub shift: bool,
    pub alt: bool,
    pub super_key: bool,
}

/// What the shortcut dialog does with a key.
#[derive(Clone, Copy, Debug, PartialEq, Eq, Structural)]
pub enum ShortcutKeyAction {
    /// The key is passed on: a modifier alone sets nothing.
    Proceed,
    /// The dialog closes without a change.
    Close,
    /// The shortcut is cleared.
    Clear,
    /// The key with these modifiers becomes the shortcut.
    Capture(KeyModifiers),
}

/// What the shortcut dialog does with a key: modifiers alone pass, Escape closes,
/// Backspace or Delete without Control, Alt or Super clears, and any other key is
/// captured with its modifiers, less Shift for a punctuation character, which Shift
/// already produced.
pub fn shortcut_key_action(key: ShortcutKey, mods: KeyModifiers) -> (a: ShortcutKeyAction)
    ensures
        a == (match key {
            ShortcutKey::Modifier => ShortcutKeyAction::Proceed,
            ShortcutKey::Escape => ShortcutKeyAction::Close,
            ShortcutKey::Erase => if !mods.control && !mods.alt && !mods.super_key {
                ShortcutKeyAction::Clear
            } else {
                ShortcutKeyAction::Capture(mods)
            },
            ShortcutKey::Other { punctuation } => ShortcutKeyAction::Capture(
                KeyModifiers { shift: mods.shift && !punctuation, ..mods },
            ),
        }),
{
    match key {
        ShortcutKey::Modifier => ShortcutKeyAction::Proceed,
        ShortcutKey::Escape => ShortcutKeyAction::Close,
        ShortcutKey::Erase => {
            if !mods.control && !mods.alt && !mods.super_key {
                ShortcutKeyAction::Clear
            } else {
                ShortcutKeyAction::Capture(mods)
            }
        },
        ShortcutKey::Other { punctuation } => ShortcutKeyAction::Capture(
            KeyModifiers {
                control: mods.control,
                shift: mods.shift && !punctuation,
                alt: mods.alt,
                super_key: mods.super_key,
            },
        ),
    }
}

/// Whether a shortcut shows as disabled: when it is empty or white space.
pub fn accel_disabled(accel: &str) -> (b: bool)
    ensures
        b == (trimmed(accel@).len() == 0),
{
    let t = trim(accel);
    t.unicode_len() == 0
}

/// The warning shown when a shortcut is taken: the action it belongs to and its keys,
/// both already escaped for markup.
pub fn conflict_banner_text(action_title: &str, conflicting_accel: &str) -> (text: String)
    ensures
        text@ == "\u{26a0}\u{fe0f} Already assigned to '"@ + action_title@ + "' ("@ + conflicting_accel@ + ")"@,
{
    let mut text = String::new();
    text.append("\u{26a0}\u{fe0f} Already assigned to '");
    text.append(action_title);
    text.append("' (");
    text.append(conflicting_accel);
    text.append(")");
    text
}

/// The title of the shortcut dialog for an action.
pub fn shortcut_dialog_title(action_title: &str) -> (text: String)
    ensures
        text@ == "Set Shortcut \u{2014} "@ + action_title@,
{
    let mut text = String::new();
    text.append("Set Shortcut \u{2014} ");
    text.append(action_title);
    text
}

/// The heading of the shortcut dialog for an action.
pub fn shortcut_dialog_heading(action_title: &str) -> (text: String)
    ensures
        text@ == "Set Shortcut: "@ + action_title@,
{
    let mut text = String::new();
    text.append("Set Shortcut: ");
    text.append(action_title);
    text
}

/// Lowercased text with spaces replaced by dashes, then ".json".
pub open spec fn dashed_json(lowered: Seq<char>) -> Seq<char> {
    lowered.map_values(|c: char| if c == ' ' { '-' } else { c }) + ".json"@
}

/// The file name a lowercased scheme name is exported under: spaces become dashes and
/// ".json" follows.
pub fn dashed_json_name(lowered: &str) -> (name: String)
    ensures
        name@ == dashed_json(lowered@),
{
    let chars = chars_of(lowered);
    let mut name = String::new();
    let n = chars.len();
    for i in 0..n
        invariant
            n == chars.len(),
            chars@ == lowered@,
            name@ == lowered@.take(i as int).map_values(|c: char| if c == ' ' { '-' } else { c }),
    {
        let c = chars[i];
        let d = if c == ' ' {
            '-'
        } else {
            c
        };
        push_char(&mut name, d);
        proof {
            assert(lowered@.take(i as int + 1).map_values(|c: char| if c == ' ' { '-' } else { c }) =~= lowered@.take(
                i as int,
            ).map_values(|c: char| if c == ' ' { '-' } else { c }).push(d));
        }
    }
    proof {
        assert(lowered@.take(n as int) =~= lowered@);
    }
    name.append(".json");
    name
}

/// The file a color scheme is exported to: its name lowercased, spaces as dashes, then
/// ".json".
pub fn scheme_file_name(scheme_name: &str) -> (name: String)
    ensures
        name@ == dashed_json(lowercase(scheme_name@)),
{
    let lowered = to_lowercase(scheme_name);
    dashed_json_name(lowered.as_str())
}

/// The identifier of a new profile, from a random suffix.
pub fn new_profile_id(suffix: &str) -> (id: String)
    ensures
        id@ == "profile-"@ + suffix@,
{
    let mut id = String::new();
    id.append("profile-");
    id.append(suffix);
    id
}

} // verus!
