use vstd::prelude::*;

use crate::session_view::{SessionAction, SessionState, SessionView};
use crate::types::PaneId;

verus! {

/// What toggling the drop-down window does.
#[derive(Clone, Copy, Debug, PartialEq, Eq, Structural)]
pub enum QuakeToggle {
    /// The window is shown and focused: it is hidden.
    Hide,
    /// The window is hidden or unfocused: it is shown.
    Present,
}

/// What toggling the drop-down window does: hide it when it is shown and focused,
/// otherwise show it.
pub fn quake_toggle(visible: bool, active: bool) -> (t: QuakeToggle)
    ensures
        t == (if visible && active {
            QuakeToggle::Hide
        } else {
            QuakeToggle::Present
        }),
{
    if visible && active {
        QuakeToggle::Hide
    } else {
        QuakeToggle::Present
    }
}

/// Showing the drop-down window focuses its active pane again.
pub fn quake_present(session: &mut SessionView)
    requires
        old(session).wf(),
    ensures
        final(session).wf(),
        final(session)@ == (match old(session)@.active() {
            Some(a) => old(session)@.focused(a),
            None => old(session)@,
        }),
{
    if let Some(a) = session.active_pane_id() {
        session.set_active_pane(a);
    }
}

/// The state after a close in the drop-down window, before any reset.
pub open spec fn quake_closed(s: SessionState, id: PaneId) -> SessionState {
    if s.has(id) {
        s.after_close(id)
    } else {
        s
    }
}

/// Carries out what a pane asked of the drop-down window's session. When a close left
/// the session empty, the session starts over with a fresh pane and `true` asks for the
/// window to be hidden.
pub fn quake_handle_action(session: &mut SessionView, action: SessionAction) -> (hide: bool)
    requires
        old(session).wf(),
    ensures
        final(session).wf(),
        hide == (match action {
            SessionAction::Close(id) => quake_closed(old(session)@, id).panes.len() == 0,
            _ => false,
        }),
        final(session)@ == (match action {
            SessionAction::Split(id, orientation) => old(session)@.focused(id).after_split_active(orientation),
            SessionAction::Close(id) => if hide {
                quake_closed(old(session)@, id).after_reset()
            } else {
                quake_closed(old(session)@, id)
            },
            SessionAction::Focus(id) => old(session)@.focused(id),
        }),
{
    match action {
        SessionAction::Split(id, orientation) => {
            session.set_active_pane(id);
            session.split_active(orientation);
            false
        },
        SessionAction::Close(id) => {
            session.close_pane(id);
            if session.is_empty() {
                session.reset();
                true
            } else {
                false
            }
        },
        SessionAction::Focus(id) => {
            session.set_active_pane(id);
            false
        },
    }
}

} // verus!
