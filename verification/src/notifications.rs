use vstd::prelude::*;

use crate::text::{push_signed_decimal, signed_decimal};

verus! {

/// The body of the notification for a bell in the pane titled `title`.
pub fn bell_body(title: &str) -> (body: String)
    ensures
        body@ == "Bell received in "@ + title@,
{
    let mut body = String::new();
    body.append("Bell received in ");
    body.append(title);
    body
}

/// The body of the notification for a process that exited with `status` in the pane
/// titled `title`.
pub fn process_exit_body(title: &str, status: i32) -> (body: String)
    ensures
        body@ == "Process completed in "@ + title@ + " with exit status "@ + signed_decimal(status as int),
{
    let mut body = String::new();
    body.append("Process completed in ");
    body.append(title);
    body.append(" with exit status ");
    push_signed_decimal(&mut body, status as i64);
    body
}

/// Whether an event of a pane is notified: notifications are on, this kind of event is
/// notified, and the pane is not the active one.
pub fn should_notify(notifications_enabled: bool, kind_enabled: bool, pane_is_active: bool) -> (b: bool)
    ensures
        b == (notifications_enabled && kind_enabled && !pane_is_active),
{
    notifications_enabled && kind_enabled && !pane_is_active
}

} // verus!
