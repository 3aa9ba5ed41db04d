use vstd::prelude::*;

use crate::session_view::{SessionAction, SessionView};
use crate::text::{chars_of, push_char};
use crate::types::WindowStyle;

verus! {

/// The tab after the one at `pos`, wrapping to the first; none with fewer than two tabs.
pub fn tab_next(pos: i32, n: i32) -> (r: Option<i32>)
    requires
        0 <= pos < n,
    ensures
        r == (if n > 1 {
            Some(((pos + 1) % (n as int)) as i32)
        } else {
            None
        }),
{
    if n > 1 {
        Some((pos + 1) % n)
    } else {
        None
    }
}

/// The tab before the one at `pos`, wrapping to the last; none with fewer than two tabs.
pub fn tab_prev(pos: i32, n: i32) -> (r: Option<i32>)
    requires
        0 <= pos < n,
    ensures
        r == (if n > 1 {
            Some(if pos == 0 {
                (n - 1) as i32
            } else {
                (pos - 1) as i32
            })
        } else {
            None
        }),
{
    if n > 1 {
        if pos == 0 {
            Some(n - 1)
        } else {
            Some(pos - 1)
        }
    } else {
        None
    }
}

/// The tab that "switch to tab `idx + 1`" selects: the tab at `idx`, when there is one.
pub fn switch_tab_index(idx: u32, n: u32) -> (r: Option<u32>)
    ensures
        r == (if idx < n {
            Some(idx)
        } else {
            None
        }),
{
    if n > idx {
        Some(idx)
    } else {
        None
    }
}

/// Going to the next tab and then to the previous one comes back to the same tab, and
/// the other way round.
pub proof fn lemma_tab_next_prev_inverse(pos: i32, n: i32)
    requires
        0 <= pos < n,
        n > 1,
    ensures
        ({
            let next = ((pos + 1) % (n as int)) as i32;
            0 <= next < n && (if next == 0 {
                n - 1
            } else {
                next - 1
            }) == pos
        }),
        ({
            let prev = if pos == 0 {
                n - 1
            } else {
                pos - 1
            };
            (prev + 1) % (n as int) == pos
        }),
{
    if pos + 1 == n {
        assert((pos + 1) % (n as int) == 0) by (nonlinear_arith)
            requires
                pos + 1 == n,
                n > 1,
        ;
    } else {
        assert((pos + 1) % (n as int) == pos + 1) by (nonlinear_arith)
            requires
                0 <= pos + 1 < n,
        ;
    }
    if pos == 0 {
        assert(((n - 1) + 1) % (n as int) == 0) by (nonlinear_arith)
            requires
                n > 1,
        ;
    } else {
        assert((pos as int) % (n as int) == pos) by (nonlinear_arith)
            requires
                0 < pos < n,
        ;
    }
}

/// What the "close pane" action does.
#[derive(Clone, Copy, Debug, PartialEq, Eq, Structural)]
pub enum ClosePaneDecision {
    /// No tab is selected: nothing happens.
    Nothing,
    /// The selected session keeps other panes: its active pane closes.
    CloseActivePane,
    /// The selected session has a single pane: its tab closes.
    CloseTab,
    /// The selected tab has no session: the window closes.
    CloseWindow,
}

/// What the "close pane" action does, given whether a tab is selected and, if that tab
/// holds a session, how many panes it has.
pub fn close_pane_decision(has_selected_page: bool, session_pane_count: Option<usize>) -> (d: ClosePaneDecision)
    ensures
        d == (if !has_selected_page {
            ClosePaneDecision::Nothing
        } else {
            match session_pane_count {
                Some(n) => if n > 1 {
                    ClosePaneDecision::CloseActivePane
                } else {
                    ClosePaneDecision::CloseTab
                },
                None => ClosePaneDecision::CloseWindow,
            }
        }),
{
    if !has_selected_page {
        return ClosePaneDecision::Nothing;
    }
    match session_pane_count {
        Some(n) => if n > 1 {
            ClosePaneDecision::CloseActivePane
        } else {
            ClosePaneDecision::CloseTab
        },
        None => ClosePaneDecision::CloseWindow,
    }
}

/// The sum of a sequence of pane counts.
pub open spec fn count_sum(counts: Seq<usize>) -> int
    decreases counts.len(),
{
    if counts.len() == 0 {
        0
    } else {
        count_sum(counts.drop_last()) + counts.last()
    }
}

/// The number of panes of a window: the sum of its sessions' pane counts.
pub fn total_pane_count(counts: &Vec<usize>) -> (total: usize)
    requires
        count_sum(counts@) <= usize::MAX,
    ensures
        total == count_sum(counts@),
{
    let mut total: usize = 0;
    let n = counts.len();
    for i in 0..n
        invariant
            n == counts.len(),
            total == count_sum(counts@.take(i as int)),
            count_sum(counts@) <= usize::MAX,
    {
        proof {
            assert(counts@.take(i as int + 1).drop_last() =~= counts@.take(i as int));
            lemma_count_sum_prefix(counts@, i as int + 1);
        }
        total = total + counts[i];
    }
    proof {
        assert(counts@.take(n as int) =~= counts@);
    }
    total
}

/// The sum over a prefix is at most the sum over the whole sequence.
pub proof fn lemma_count_sum_prefix(counts: Seq<usize>, k: int)
    requires
        0 <= k <= counts.len(),
    ensures
        count_sum(counts.take(k)) <= count_sum(counts),
    decreases counts.len(),
{
    if k < counts.len() {
        assert(counts.drop_last().take(k) =~= counts.take(k));
        lemma_count_sum_prefix(counts.drop_last(), k);
    } else {
        assert(counts.take(k) =~= counts);
    }
}

/// Whether a dragged pane may be detached into a new window: only when its window keeps
/// another pane.
pub fn detach_allowed(total_panes: usize) -> (b: bool)
    ensures
        b == (total_panes > 1),
{
    total_panes > 1
}

/// Whether the window closes after a tab closed: when no tab is left.
pub fn close_window_after_tab_close(n_pages: u32) -> (b: bool)
    ensures
        b == (n_pages == 0),
{
    n_pages == 0
}

/// Whether the header bar is shown for a window style.
pub fn header_bar_visible(style: WindowStyle) -> (b: bool)
    ensures
        b == (style != WindowStyle::HideToolbar),
{
    match style {
        WindowStyle::HideToolbar => false,
        WindowStyle::Normal => true,
    }
}

/// The number of the selected tab and the number of tabs that a window title shows:
/// the selected tab's position counting from one (one when none is selected) and the
/// number of tabs, at least one.
pub fn window_title_indices(selected: Option<u32>, n_pages: u32) -> (r: (u64, u64))
    ensures
        r.0 == (match selected {
            Some(pos) => pos + 1,
            None => 1,
        }),
        r.1 == (if n_pages == 0 {
            1
        } else {
            n_pages as int
        }),
{
    let number: u64 = match selected {
        Some(pos) => pos as u64 + 1,
        None => 1,
    };
    let count: u64 = if n_pages == 0 {
        1
    } else {
        n_pages as u64
    };
    (number, count)
}

/// The state of "synchronise input" after the action is triggered: the opposite.
pub fn toggled_sync_state(current: bool) -> (b: bool)
    ensures
        b == !current,
{
    !current
}

/// A title with slashes, backslashes and spaces replaced by underscores.
pub open spec fn sanitized_title(title: Seq<char>) -> Seq<char> {
    title.map_values(|c: char| if c == '/' || c == '\\' || c == ' ' { '_' } else { c })
}

/// The file a session layout is saved in: its title with slashes, backslashes and spaces
/// replaced by underscores, then ".json".
pub fn template_file_name(title: &str) -> (name: String)
    ensures
        name@ == sanitized_title(title@) + ".json"@,
{
    let chars = chars_of(title);
    let mut name = String::new();
    let n = chars.len();
    for i in 0..n
        invariant
            n == chars.len(),
            chars@ == title@,
            name@ == sanitized_title(title@.take(i as int)),
    {
        let c = chars[i];
        let d = if c == '/' || c == '\\' || c == ' ' {
            '_'
        } else {
            c
        };
        push_char(&mut name, d);
        proof {
            assert(sanitized_title(title@.take(i as int + 1)) =~= sanitized_title(title@.take(i as int)).push(d));
        }
    }
    proof {
        assert(title@.take(n as int) =~= title@);
    }
    name.append(".json");
    name
}

/// Hands out the first pane identifier of each new tab, a hundred apart so that tabs do
/// not share identifiers.
pub struct SessionIdAllocator {
    next: u64,
}

impl View for SessionIdAllocator {
    type V = u64;

    closed spec fn view(&self) -> u64 {
        self.next
    }
}

impl SessionIdAllocator {
    /// The first identifier handed out is 1.
    pub fn new() -> (a: Self)
        ensures
            a@ == 1,
    {
        SessionIdAllocator { next: 1 }
    }

    /// Whether another identifier can be handed out.
    pub fn can_allocate(&self) -> (b: bool)
        ensures
            b == (self@ <= u64::MAX - 100),
    {
        self.next <= u64::MAX - 100
    }

    /// Hands out the next identifier and moves on by a hundred.
    pub fn allocate(&mut self) -> (id: u64)
        requires
            old(self)@ <= u64::MAX - 100,
        ensures
            id == old(self)@,
            final(self)@ == old(self)@ + 100,
    {
        let id = self.next;
        self.next = self.next + 100;
        id
    }
}

/// Carries out what a pane asked of its window's session: a split focuses the pane and
/// splits it, a close closes it, a focus focuses it. After a close that left the session
/// empty, returns `true`: the tab is to be closed.
pub fn handle_session_action(session: &mut SessionView, action: SessionAction) -> (close_tab: bool)
    requires
        old(session).wf(),
    ensures
        final(session).wf(),
        final(session)@ == (match action {
            SessionAction::Split(id, orientation) => old(session)@.focused(id).after_split_active(orientation),
            SessionAction::Close(id) => if old(session)@.has(id) {
                old(session)@.after_close(id)
            } else {
                old(session)@
            },
            SessionAction::Focus(id) => old(session)@.focused(id),
        }),
        close_tab == (action is Close && final(session)@.panes.len() == 0),
{
    match action {
        SessionAction::Split(id, orientation) => {
            session.set_active_pane(id);
            session.split_active(orientation);
            false
        },
        SessionAction::Close(id) => {
            session.close_pane(id);
            session.is_empty()
        },
        SessionAction::Focus(id) => {
            session.set_active_pane(id);
            false
        },
    }
}

} // verus!
