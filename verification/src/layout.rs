use vstd::prelude::*;

use crate::types::{DockPosition, PaneId, SplitOrientation};

verus! {

/// The arrangement of a session's panes: a pane, or a split of two arrangements side by
/// side (`Horizontal`, the first on the left) or one above the other (`Vertical`, the
/// first on top).
#[derive(Debug, PartialEq, Eq)]
pub enum LayoutNode {
    Leaf(PaneId),
    Split { orientation: SplitOrientation, first: Box<LayoutNode>, second: Box<LayoutNode> },
}

/// The panes of an arrangement, from left to right and top to bottom.
pub open spec fn leaves(n: LayoutNode) -> Seq<PaneId>
    decreases n,
{
    match n {
        LayoutNode::Leaf(id) => seq![id],
        LayoutNode::Split { first, second, .. } => leaves(*first) + leaves(*second),
    }
}

/// The arrangement with the pane `x` replaced by the arrangement `r`.
pub open spec fn replace_leaf(n: LayoutNode, x: PaneId, r: LayoutNode) -> LayoutNode
    decreases n,
{
    match n {
        LayoutNode::Leaf(id) => if id == x {
            r
        } else {
            n
        },
        LayoutNode::Split { orientation, first, second } => if leaves(*first).contains(x) {
            LayoutNode::Split { orientation, first: Box::new(replace_leaf(*first, x, r)), second }
        } else {
            LayoutNode::Split { orientation, first, second: Box::new(replace_leaf(*second, x, r)) }
        },
    }
}

/// The arrangement without the pane `x`: the other side of the split that held it takes
/// the split's place. None when `x` was the only pane.
pub open spec fn remove_leaf(n: LayoutNode, x: PaneId) -> Option<LayoutNode>
    decreases n,
{
    match n {
        LayoutNode::Leaf(id) => if id == x {
            None
        } else {
            Some(n)
        },
        LayoutNode::Split { orientation, first, second } => if leaves(*first).contains(x) {
            match remove_leaf(*first, x) {
                None => Some(*second),
                Some(f) => Some(LayoutNode::Split { orientation, first: Box::new(f), second }),
            }
        } else {
            match remove_leaf(*second, x) {
                None => Some(*first),
                Some(s) => Some(LayoutNode::Split { orientation, first, second: Box::new(s) }),
            }
        },
    }
}

/// The arrangement with the panes `a` and `b` in each other's places.
pub open spec fn swap_leaves(n: LayoutNode, a: PaneId, b: PaneId) -> LayoutNode
    decreases n,
{
    match n {
        LayoutNode::Leaf(id) => if id == a {
            LayoutNode::Leaf(b)
        } else if id == b {
            LayoutNode::Leaf(a)
        } else {
            n
        },
        LayoutNode::Split { orientation, first, second } => LayoutNode::Split {
            orientation,
            first: Box::new(swap_leaves(*first, a, b)),
            second: Box::new(swap_leaves(*second, a, b)),
        },
    }
}

/// The panes of an arrangement that may be empty.
pub open spec fn leaves_of(n: Option<LayoutNode>) -> Seq<PaneId> {
    match n {
        Some(t) => leaves(t),
        None => Seq::empty(),
    }
}

/// A pane `x` placed at `position` of the pane `target`: a split one above the other for
/// the top and bottom, side by side for the left, the right and the centre, `x` first at
/// the top and left.
pub open spec fn docked_split(x: PaneId, target: PaneId, position: DockPosition) -> LayoutNode {
    match position {
        DockPosition::Top => LayoutNode::Split {
            orientation: SplitOrientation::Vertical,
            first: Box::new(LayoutNode::Leaf(x)),
            second: Box::new(LayoutNode::Leaf(target)),
        },
        DockPosition::Bottom => LayoutNode::Split {
            orientation: SplitOrientation::Vertical,
            first: Box::new(LayoutNode::Leaf(target)),
            second: Box::new(LayoutNode::Leaf(x)),
        },
        DockPosition::Left => LayoutNode::Split {
            orientation: SplitOrientation::Horizontal,
            first: Box::new(LayoutNode::Leaf(x)),
            second: Box::new(LayoutNode::Leaf(target)),
        },
        _ => LayoutNode::Split {
            orientation: SplitOrientation::Horizontal,
            first: Box::new(LayoutNode::Leaf(target)),
            second: Box::new(LayoutNode::Leaf(x)),
        },
    }
}

/// A sequence of two holds an entry when one of its parts does.
pub proof fn lemma_concat_contains(a: Seq<PaneId>, b: Seq<PaneId>, x: PaneId)
    ensures
        (a + b).contains(x) <==> (a.contains(x) || b.contains(x)),
{
    let c = a + b;
    if c.contains(x) {
        let i = choose|i: int| 0 <= i < c.len() && c[i] == x;
        if i < a.len() {
            assert(a[i] == x);
        } else {
            assert(b[i - a.len()] == x);
        }
    }
    if a.contains(x) {
        let i = choose|i: int| 0 <= i < a.len() && a[i] == x;
        assert(c[i] == x);
    }
    if b.contains(x) {
        let i = choose|i: int| 0 <= i < b.len() && b[i] == x;
        assert(c[i + a.len()] == x);
    }
}

/// An arrangement has at least one pane.
pub proof fn lemma_leaves_nonempty(n: LayoutNode)
    ensures
        leaves(n).len() > 0,
    decreases n,
{
    match n {
        LayoutNode::Leaf(_) => {},
        LayoutNode::Split { first, second, .. } => {
            lemma_leaves_nonempty(*first);
        },
    }
}

/// Replacing the pane at position `k` by an arrangement puts that arrangement's panes in
/// its place.
pub proof fn lemma_replace_leaf(n: LayoutNode, x: PaneId, r: LayoutNode, k: int)
    requires
        leaves(n).no_duplicates(),
        0 <= k < leaves(n).len(),
        leaves(n)[k] == x,
    ensures
        leaves(replace_leaf(n, x, r)) == leaves(n).subrange(0, k) + leaves(r) + leaves(n).subrange(
            k + 1,
            leaves(n).len() as int,
        ),
    decreases n,
{
    match n {
        LayoutNode::Leaf(id) => {
            assert(leaves(n).subrange(0, k) =~= Seq::<PaneId>::empty());
            assert(leaves(n).subrange(k + 1, 1) =~= Seq::<PaneId>::empty());
            assert(leaves(r) + Seq::<PaneId>::empty() =~= leaves(r));
            assert(Seq::<PaneId>::empty() + leaves(r) =~= leaves(r));
        },
        LayoutNode::Split { orientation, first, second } => {
            let f = leaves(*first);
            let s = leaves(*second);
            let all = leaves(n);
            assert(all == f + s);
            if k < f.len() {
                assert(f[k] == x);
                assert(f.contains(x));
                assert(f.no_duplicates()) by {
                    assert forall|i: int, j: int| 0 <= i < f.len() && 0 <= j < f.len() && i != j implies f[i]
                        != f[j] by {
                        assert(all[i] == f[i] && all[j] == f[j]);
                    }
                }
                lemma_replace_leaf(*first, x, r, k);
                assert(leaves(replace_leaf(n, x, r)) == leaves(replace_leaf(*first, x, r)) + s);
                assert(all.subrange(0, k) =~= f.subrange(0, k));
                assert(all.subrange(k + 1, all.len() as int) =~= f.subrange(k + 1, f.len() as int) + s);
                assert(leaves(replace_leaf(n, x, r)) =~= all.subrange(0, k) + leaves(r) + all.subrange(
                    k + 1,
                    all.len() as int,
                ));
            } else {
                let k2 = k - f.len();
                assert(s[k2] == x);
                assert(!f.contains(x)) by {
                    if f.contains(x) {
                        let i = choose|i: int| 0 <= i < f.len() && f[i] == x;
                        assert(all[i] == x && all[k] == x);
                    }
                }
                assert(s.no_duplicates()) by {
                    assert forall|i: int, j: int| 0 <= i < s.len() && 0 <= j < s.len() && i != j implies s[i]
                        != s[j] by {
                        assert(all[i + f.len()] == s[i] && all[j + f.len()] == s[j]);
                    }
                }
                lemma_replace_leaf(*second, x, r, k2);
                assert(leaves(replace_leaf(n, x, r)) == f + leaves(replace_leaf(*second, x, r)));
                assert(all.subrange(0, k) =~= f + s.subrange(0, k2));
                assert(all.subrange(k + 1, all.len() as int) =~= s.subrange(k2 + 1, s.len() as int));
                assert(leaves(replace_leaf(n, x, r)) =~= all.subrange(0, k) + leaves(r) + all.subrange(
                    k + 1,
                    all.len() as int,
                ));
            }
        },
    }
}

/// Removing the pane at position `k` removes it from the panes and keeps the others in
/// their order.
pub proof fn lemma_remove_leaf(n: LayoutNode, x: PaneId, k: int)
    requires
        leaves(n).no_duplicates(),
        0 <= k < leaves(n).len(),
        leaves(n)[k] == x,
    ensures
        leaves_of(remove_leaf(n, x)) == leaves(n).remove(k),
    decreases n,
{
    match n {
        LayoutNode::Leaf(id) => {
            assert(leaves(n).remove(k) =~= Seq::<PaneId>::empty());
        },
        LayoutNode::Split { orientation, first, second } => {
            let f = leaves(*first);
            let s = leaves(*second);
            let all = leaves(n);
            assert(all == f + s);
            if k < f.len() {
                assert(f[k] == x);
                assert(f.contains(x));
                assert(f.no_duplicates()) by {
                    assert forall|i: int, j: int| 0 <= i < f.len() && 0 <= j < f.len() && i != j implies f[i]
                        != f[j] by {
                        assert(all[i] == f[i] && all[j] == f[j]);
                    }
                }
                lemma_remove_leaf(*first, x, k);
                assert(all.remove(k) =~= f.remove(k) + s);
                match remove_leaf(*first, x) {
                    None => {
                        assert(f.remove(k) + s =~= s);
                    },
                    Some(t) => {},
                }
            } else {
                let k2 = k - f.len();
                assert(s[k2] == x);
                assert(!f.contains(x)) by {
                    if f.contains(x) {
                        let i = choose|i: int| 0 <= i < f.len() && f[i] == x;
                        assert(all[i] == x && all[k] == x);
                    }
                }
                assert(s.no_duplicates()) by {
                    assert forall|i: int, j: int| 0 <= i < s.len() && 0 <= j < s.len() && i != j implies s[i]
                        != s[j] by {
                        assert(all[i + f.len()] == s[i] && all[j + f.len()] == s[j]);
                    }
                }
                lemma_remove_leaf(*second, x, k2);
                assert(all.remove(k) =~= f + s.remove(k2));
                match remove_leaf(*second, x) {
                    None => {
                        assert(f + s.remove(k2) =~= f);
                    },
                    Some(t) => {},
                }
            }
        },
    }
}

/// Exchanging two panes exchanges them in the list of panes.
pub proof fn lemma_swap_leaves(n: LayoutNode, a: PaneId, b: PaneId)
    ensures
        leaves(swap_leaves(n, a, b)) == leaves(n).map_values(
            |y: PaneId|
                if y == a {
                    b
                } else if y == b {
                    a
                } else {
                    y
                },
        ),
    decreases n,
{
    match n {
        LayoutNode::Leaf(id) => {
            assert(leaves(swap_leaves(n, a, b)) =~= leaves(n).map_values(
                |y: PaneId|
                    if y == a {
                        b
                    } else if y == b {
                        a
                    } else {
                        y
                    },
            ));
        },
        LayoutNode::Split { orientation, first, second } => {
            lemma_swap_leaves(*first, a, b);
            lemma_swap_leaves(*second, a, b);
            assert(leaves(swap_leaves(n, a, b)) =~= leaves(n).map_values(
                |y: PaneId|
                    if y == a {
                        b
                    } else if y == b {
                        a
                    } else {
                        y
                    },
            ));
        },
    }
}

/// A split of two panes holds them in order.
pub proof fn lemma_pair_leaves(orientation: SplitOrientation, x: PaneId, y: PaneId)
    ensures
        leaves(
            LayoutNode::Split {
                orientation,
                first: Box::new(LayoutNode::Leaf(x)),
                second: Box::new(LayoutNode::Leaf(y)),
            },
        ) == seq![x, y],
{
    assert(leaves(LayoutNode::Leaf(x)) == seq![x]);
    assert(leaves(LayoutNode::Leaf(y)) == seq![y]);
    assert(seq![x] + seq![y] =~= seq![x, y]);
}

/// The panes of a docking split: the docked pane first at the top and left.
pub proof fn lemma_docked_split_leaves(x: PaneId, target: PaneId, position: DockPosition)
    ensures
        leaves(docked_split(x, target, position)) == (match position {
            DockPosition::Top => seq![x, target],
            DockPosition::Left => seq![x, target],
            _ => seq![target, x],
        }),
{
    match position {
        DockPosition::Top => lemma_pair_leaves(SplitOrientation::Vertical, x, target),
        DockPosition::Bottom => lemma_pair_leaves(SplitOrientation::Vertical, target, x),
        DockPosition::Left => lemma_pair_leaves(SplitOrientation::Horizontal, x, target),
        _ => lemma_pair_leaves(SplitOrientation::Horizontal, target, x),
    }
}

/// The direction of the split that directly holds the pane `x`, if any.
pub open spec fn parent_orientation(n: LayoutNode, x: PaneId) -> Option<SplitOrientation>
    decreases n,
{
    match n {
        LayoutNode::Leaf(_) => None,
        LayoutNode::Split { orientation, first, second } => if *first == LayoutNode::Leaf(x) || *second
            == LayoutNode::Leaf(x) {
            Some(orientation)
        } else if leaves(*first).contains(x) {
            parent_orientation(*first, x)
        } else {
            parent_orientation(*second, x)
        },
    }
}

/// A split of the two panes `p` and `q`, `p` first.
pub open spec fn pair(orientation: SplitOrientation, p: PaneId, q: PaneId) -> LayoutNode {
    LayoutNode::Split { orientation, first: Box::new(LayoutNode::Leaf(p)), second: Box::new(LayoutNode::Leaf(q)) }
}

/// Replacing a pane by a split of it and a new pane leaves both directly in a split of
/// that direction.
pub proof fn lemma_replace_parent(n: LayoutNode, x: PaneId, orientation: SplitOrientation, p: PaneId, q: PaneId)
    requires
        leaves(n).no_duplicates(),
        leaves(n).contains(x),
        p != q,
        (x == p && !leaves(n).contains(q)) || (x == q && !leaves(n).contains(p)),
    ensures
        parent_orientation(replace_leaf(n, x, pair(orientation, p, q)), p) == Some(orientation),
        parent_orientation(replace_leaf(n, x, pair(orientation, p, q)), q) == Some(orientation),
    decreases n,
{
    let r = pair(orientation, p, q);
    lemma_pair_leaves(orientation, p, q);
    match n {
        LayoutNode::Leaf(id) => {
            assert(leaves(n)[0] == id);
            assert(id == x) by {
                let i = choose|i: int| 0 <= i < leaves(n).len() && leaves(n)[i] == x;
            }
        },
        LayoutNode::Split { orientation: o2, first, second } => {
            let f = leaves(*first);
            let sd = leaves(*second);
            let all = leaves(n);
            assert(all == f + sd);
            lemma_concat_contains(f, sd, x);
            lemma_concat_contains(f, sd, p);
            lemma_concat_contains(f, sd, q);
            assert(f.no_duplicates()) by {
                assert forall|i: int, j: int| 0 <= i < f.len() && 0 <= j < f.len() && i != j implies f[i] != f[j] by {
                    assert(all[i] == f[i] && all[j] == f[j]);
                }
            }
            assert(sd.no_duplicates()) by {
                assert forall|i: int, j: int| 0 <= i < sd.len() && 0 <= j < sd.len() && i != j implies sd[i]
                    != sd[j] by {
                    assert(all[i + f.len()] == sd[i] && all[j + f.len()] == sd[j]);
                }
            }
            assert(!(f.contains(x) && sd.contains(x))) by {
                if f.contains(x) && sd.contains(x) {
                    let i = choose|i: int| 0 <= i < f.len() && f[i] == x;
                    let j = choose|j: int| 0 <= j < sd.len() && sd[j] == x;
                    assert(all[i] == x && all[j + f.len()] == x);
                }
            }
            if f.contains(x) {
                let f2 = replace_leaf(*first, x, r);
                let k = f.index_of(x);
                lemma_replace_leaf(*first, x, r, k);
                lemma_replace_parent(*first, x, orientation, p, q);
                assert(f2 is Split) by {
                    match *first {
                        LayoutNode::Leaf(id) => {},
                        LayoutNode::Split { .. } => {},
                    }
                }
                let l2 = leaves(f2);
                assert(l2[k] == p || l2[k] == q);
                assert(l2[k] == p ==> l2[k + 1] == q);
                assert(l2[k] == q ==> l2[k + 1] == p);
                assert(l2.contains(p) && l2.contains(q)) by {
                    assert(l2[k] == f.subrange(0, k).add(leaves(r)).add(f.subrange(k + 1, f.len() as int))[k]);
                }
                assert(!sd.contains(p) && !sd.contains(q));
                assert(*second != LayoutNode::Leaf(p)) by {
                    if *second == LayoutNode::Leaf(p) {
                        assert(sd[0] == p);
                    }
                }
                assert(*second != LayoutNode::Leaf(q)) by {
                    if *second == LayoutNode::Leaf(q) {
                        assert(sd[0] == q);
                    }
                }
            } else {
                let s2 = replace_leaf(*second, x, r);
                assert(sd.contains(x));
                lemma_replace_parent(*second, x, orientation, p, q);
                assert(!f.contains(p) && !f.contains(q));
                assert(*first != LayoutNode::Leaf(p)) by {
                    if *first == LayoutNode::Leaf(p) {
                        assert(f[0] == p);
                    }
                }
                assert(*first != LayoutNode::Leaf(q)) by {
                    if *first == LayoutNode::Leaf(q) {
                        assert(f[0] == q);
                    }
                }
                assert(s2 is Split) by {
                    match *second {
                        LayoutNode::Leaf(id) => {},
                        LayoutNode::Split { .. } => {},
                    }
                }
            }
        },
    }
}

/// The part of an arrangement reached by following `path` from its top, `false` going to
/// the first side of a split and `true` to the second; None where the path leaves it.
pub open spec fn subtree(n: LayoutNode, path: Seq<bool>) -> Option<LayoutNode>
    decreases path.len(),
{
    if path.len() == 0 {
        Some(n)
    } else {
        match n {
            LayoutNode::Leaf(_) => None,
            LayoutNode::Split { first, second, .. } => if path[0] {
                subtree(*second, path.drop_first())
            } else {
                subtree(*first, path.drop_first())
            },
        }
    }
}

/// The direction of the split found at `path`, None where there is no split.
pub open spec fn orientation_at(n: LayoutNode, path: Seq<bool>) -> Option<SplitOrientation> {
    match subtree(n, path) {
        Some(LayoutNode::Split { orientation, .. }) => Some(orientation),
        _ => None,
    }
}

/// The pane found at `path`, None where there is none.
pub open spec fn pane_at(n: LayoutNode, path: Seq<bool>) -> Option<PaneId> {
    match subtree(n, path) {
        Some(LayoutNode::Leaf(id)) => Some(id),
        _ => None,
    }
}

/// Replacing the pane `x` changes nothing else of the arrangement: every split keeps its
/// place and its direction, and every other pane keeps its place.
pub proof fn lemma_replace_keeps_rest(n: LayoutNode, x: PaneId, r: LayoutNode, path: Seq<bool>)
    ensures
        orientation_at(n, path) is Some ==> orientation_at(replace_leaf(n, x, r), path) == orientation_at(n, path),
        (pane_at(n, path) is Some && pane_at(n, path) != Some(x)) ==> pane_at(replace_leaf(n, x, r), path)
            == pane_at(n, path),
    decreases path.len(),
{
    match n {
        LayoutNode::Leaf(_) => {},
        LayoutNode::Split { orientation, first, second } => {
            if path.len() > 0 {
                let rest = path.drop_first();
                if leaves(*first).contains(x) {
                    if !path[0] {
                        lemma_replace_keeps_rest(*first, x, r, rest);
                    }
                } else {
                    if path[0] {
                        lemma_replace_keeps_rest(*second, x, r, rest);
                    }
                }
            }
        },
    }
}

/// The path to the split that directly holds the pane `x`.
pub open spec fn parent_path(n: LayoutNode, x: PaneId) -> Seq<bool>
    decreases n,
{
    match n {
        LayoutNode::Leaf(_) => Seq::empty(),
        LayoutNode::Split { first, second, .. } => if leaves(*first).contains(x) {
            match *first {
                LayoutNode::Leaf(_) => Seq::empty(),
                LayoutNode::Split { .. } => seq![false] + parent_path(*first, x),
            }
        } else {
            match *second {
                LayoutNode::Leaf(_) => Seq::empty(),
                LayoutNode::Split { .. } => seq![true] + parent_path(*second, x),
            }
        },
    }
}

proof fn lemma_prefix_step(b: bool, q: Seq<bool>, p: Seq<bool>)
    requires
        p.len() > 0,
        p[0] == b,
        q.is_prefix_of(p.drop_first()),
    ensures
        (seq![b] + q).is_prefix_of(p),
{
    let c = seq![b] + q;
    assert(c =~= p.subrange(0, c.len() as int)) by {
        assert forall|i: int| 0 <= i < c.len() implies c[i] == p.subrange(0, c.len() as int)[i] by {
            if i > 0 {
                assert(q[i - 1] == p.drop_first().subrange(0, q.len() as int)[i - 1]);
            }
        }
    }
}

/// Removing a pane from a split arrangement keeps every split and every pane that lies
/// neither at nor below the split that directly held it, in its place and, for a split,
/// in its direction.
pub proof fn lemma_remove_keeps_rest(n: LayoutNode, x: PaneId, path: Seq<bool>)
    requires
        n is Split,
        leaves(n).contains(x),
    ensures
        remove_leaf(n, x) is Some,
        !parent_path(n, x).is_prefix_of(path) ==> orientation_at(remove_leaf(n, x)->0, path)
            == orientation_at(n, path),
        !parent_path(n, x).is_prefix_of(path) ==> pane_at(remove_leaf(n, x)->0, path) == pane_at(n, path),
    decreases n,
{
    match n {
        LayoutNode::Leaf(_) => {},
        LayoutNode::Split { orientation, first, second } => {
            lemma_concat_contains(leaves(*first), leaves(*second), x);
            assert(Seq::<bool>::empty().is_prefix_of(path)) by {
                assert(Seq::<bool>::empty() =~= path.subrange(0, 0));
            }
            if leaves(*first).contains(x) {
                match *first {
                    LayoutNode::Leaf(_) => {},
                    LayoutNode::Split { .. } => {
                        let rest = path.drop_first();
                        lemma_remove_keeps_rest(*first, x, rest);
                        if path.len() > 0 && !path[0] && parent_path(*first, x).is_prefix_of(rest) {
                            lemma_prefix_step(false, parent_path(*first, x), path);
                        }
                    },
                }
            } else {
                match *second {
                    LayoutNode::Leaf(_) => {},
                    LayoutNode::Split { .. } => {
                        let rest = path.drop_first();
                        lemma_remove_keeps_rest(*second, x, rest);
                        if path.len() > 0 && path[0] && parent_path(*second, x).is_prefix_of(rest) {
                            lemma_prefix_step(true, parent_path(*second, x), path);
                        }
                    },
                }
            }
        },
    }
}

/// Removing a pane from a split arrangement lifts the other side of the split that
/// directly held it into that split's place: what was at the path `side`, then `rest`,
/// below that split is then at `rest` below its place.
pub proof fn lemma_remove_lifts_sibling(n: LayoutNode, x: PaneId, side: bool, rest: Seq<bool>)
    requires
        n is Split,
        leaves(n).contains(x),
    ensures
        remove_leaf(n, x) is Some,
        orientation_at(n, parent_path(n, x).push(side) + rest) is Some ==> orientation_at(
            remove_leaf(n, x)->0,
            parent_path(n, x) + rest,
        ) == orientation_at(n, parent_path(n, x).push(side) + rest),
        (pane_at(n, parent_path(n, x).push(side) + rest) is Some && pane_at(n, parent_path(n, x).push(side) + rest)
            != Some(x)) ==> pane_at(remove_leaf(n, x)->0, parent_path(n, x) + rest) == pane_at(
            n,
            parent_path(n, x).push(side) + rest,
        ),
    decreases n,
{
    match n {
        LayoutNode::Leaf(_) => {},
        LayoutNode::Split { orientation, first, second } => {
            lemma_concat_contains(leaves(*first), leaves(*second), x);
            let pp = parent_path(n, x);
            let long = pp.push(side) + rest;
            let short = pp + rest;
            if leaves(*first).contains(x) {
                match *first {
                    LayoutNode::Leaf(id) => {
                        assert(leaves(*first)[0] == id);
                        assert(id == x) by {
                            let i = choose|i: int| 0 <= i < leaves(*first).len() && leaves(*first)[i] == x;
                        }
                        assert(pp =~= Seq::<bool>::empty());
                        assert(long.drop_first() =~= rest);
                        assert(short =~= rest);
                        assert(long[0] == side);
                        assert(remove_leaf(n, x) == Some(*second));
                        if side {
                            assert(subtree(n, long) == subtree(*second, rest));
                        } else {
                            assert(subtree(n, long) == subtree(*first, rest));
                            assert(rest.len() > 0 ==> subtree(*first, rest) is None);
                        }
                    },
                    LayoutNode::Split { .. } => {
                        let q = parent_path(*first, x);
                        lemma_remove_lifts_sibling(*first, x, side, rest);
                        assert(pp == seq![false] + q);
                        assert(long[0] == false);
                        assert(long.drop_first() =~= q.push(side) + rest);
                        assert(short.len() > 0 && short[0] == false);
                        assert(short.drop_first() =~= q + rest);
                    },
                }
            } else {
                match *second {
                    LayoutNode::Leaf(id) => {
                        assert(leaves(*second)[0] == id);
                        assert(id == x) by {
                            let i = choose|i: int| 0 <= i < leaves(*second).len() && leaves(*second)[i] == x;
                        }
                        assert(pp =~= Seq::<bool>::empty());
                        assert(long.drop_first() =~= rest);
                        assert(short =~= rest);
                        assert(long[0] == side);
                        assert(remove_leaf(n, x) == Some(*first));
                        if side {
                            assert(subtree(n, long) == subtree(*second, rest));
                            assert(rest.len() > 0 ==> subtree(*second, rest) is None);
                        } else {
                            assert(subtree(n, long) == subtree(*first, rest));
                        }
                    },
                    LayoutNode::Split { .. } => {
                        let q = parent_path(*second, x);
                        lemma_remove_lifts_sibling(*second, x, side, rest);
                        assert(pp == seq![true] + q);
                        assert(long[0] == true);
                        assert(long.drop_first() =~= q.push(side) + rest);
                        assert(short.len() > 0 && short[0] == true);
                        assert(short.drop_first() =~= q + rest);
                    },
                }
            }
        },
    }
}

/// Exchanging two panes keeps the shape of the arrangement: the same splits in the same
/// places and directions, each of the two panes in the place of the other, every other pane
/// in its own place.
pub proof fn lemma_swap_keeps_shape(n: LayoutNode, a: PaneId, b: PaneId, path: Seq<bool>)
    ensures
        orientation_at(swap_leaves(n, a, b), path) == orientation_at(n, path),
        pane_at(swap_leaves(n, a, b), path) == (match pane_at(n, path) {
            Some(y) => Some(
                if y == a {
                    b
                } else if y == b {
                    a
                } else {
                    y
                },
            ),
            None => None,
        }),
    decreases path.len(),
{
    match n {
        LayoutNode::Leaf(_) => {},
        LayoutNode::Split { orientation, first, second } => {
            if path.len() > 0 {
                let rest = path.drop_first();
                if path[0] {
                    lemma_swap_keeps_shape(*second, a, b, rest);
                } else {
                    lemma_swap_keeps_shape(*first, a, b, rest);
                }
            }
        },
    }
}

/// Whether the pane `x` is in the arrangement.
pub fn has_leaf(n: &LayoutNode, x: PaneId) -> (b: bool)
    ensures
        b == leaves(*n).contains(x),
    decreases n,
{
    match n {
        LayoutNode::Leaf(id) => {
            proof {
                if leaves(*n).contains(x) {
                    assert(leaves(*n)[0] == x);
                }
                if *id == x {
                    assert(leaves(*n)[0] == x);
                }
            }
            *id == x
        },
        LayoutNode::Split { first, second, .. } => {
            proof {
                lemma_concat_contains(leaves(**first), leaves(**second), x);
            }
            has_leaf(first, x) || has_leaf(second, x)
        },
    }
}

/// Replaces the pane `x` by the arrangement `r` (see `replace_leaf`).
pub fn replace_leaf_exec(n: LayoutNode, x: PaneId, r: LayoutNode) -> (res: LayoutNode)
    ensures
        res == replace_leaf(n, x, r),
    decreases n,
{
    match n {
        LayoutNode::Leaf(id) => if id == x {
            r
        } else {
            LayoutNode::Leaf(id)
        },
        LayoutNode::Split { orientation, first, second } => {
            if has_leaf(&first, x) {
                LayoutNode::Split { orientation, first: Box::new(replace_leaf_exec(*first, x, r)), second }
            } else {
                LayoutNode::Split { orientation, first, second: Box::new(replace_leaf_exec(*second, x, r)) }
            }
        },
    }
}

/// Removes the pane `x` (see `remove_leaf`).
pub fn remove_leaf_exec(n: LayoutNode, x: PaneId) -> (res: Option<LayoutNode>)
    ensures
        res == remove_leaf(n, x),
    decreases n,
{
    match n {
        LayoutNode::Leaf(id) => if id == x {
            None
        } else {
            Some(LayoutNode::Leaf(id))
        },
        LayoutNode::Split { orientation, first, second } => {
            if has_leaf(&first, x) {
                match remove_leaf_exec(*first, x) {
                    None => Some(*second),
                    Some(f) => Some(LayoutNode::Split { orientation, first: Box::new(f), second }),
                }
            } else {
                match remove_leaf_exec(*second, x) {
                    None => Some(*first),
                    Some(s) => Some(LayoutNode::Split { orientation, first, second: Box::new(s) }),
                }
            }
        },
    }
}

/// Exchanges the panes `a` and `b` (see `swap_leaves`).
pub fn swap_leaves_exec(n: LayoutNode, a: PaneId, b: PaneId) -> (res: LayoutNode)
    ensures
        res == swap_leaves(n, a, b),
    decreases n,
{
    match n {
        LayoutNode::Leaf(id) => if id == a {
            LayoutNode::Leaf(b)
        } else if id == b {
            LayoutNode::Leaf(a)
        } else {
            LayoutNode::Leaf(id)
        },
        LayoutNode::Split { orientation, first, second } => LayoutNode::Split {
            orientation,
            first: Box::new(swap_leaves_exec(*first, a, b)),
            second: Box::new(swap_leaves_exec(*second, a, b)),
        },
    }
}

/// A copy of an arrangement.
pub fn copy_layout(n: &LayoutNode) -> (res: LayoutNode)
    ensures
        res == *n,
    decreases n,
{
    match n {
        LayoutNode::Leaf(id) => LayoutNode::Leaf(*id),
        LayoutNode::Split { orientation, first, second } => LayoutNode::Split {
            orientation: *orientation,
            first: Box::new(copy_layout(first)),
            second: Box::new(copy_layout(second)),
        },
    }
}

/// The arrangement that docks `x` at `position` of `target` (see `docked_split`).
pub fn docked_split_exec(x: PaneId, target: PaneId, position: DockPosition) -> (res: LayoutNode)
    ensures
        res == docked_split(x, target, position),
{
    match position {
        DockPosition::Top => LayoutNode::Split {
            orientation: SplitOrientation::Vertical,
            first: Box::new(LayoutNode::Leaf(x)),
            second: Box::new(LayoutNode::Leaf(target)),
        },
        DockPosition::Bottom => LayoutNode::Split {
            orientation: SplitOrientation::Vertical,
            first: Box::new(LayoutNode::Leaf(target)),
            second: Box::new(LayoutNode::Leaf(x)),
        },
        DockPosition::Left => LayoutNode::Split {
            orientation: SplitOrientation::Horizontal,
            first: Box::new(LayoutNode::Leaf(x)),
            second: Box::new(LayoutNode::Leaf(target)),
        },
        _ => LayoutNode::Split {
            orientation: SplitOrientation::Horizontal,
            first: Box::new(LayoutNode::Leaf(target)),
            second: Box::new(LayoutNode::Leaf(x)),
        },
    }
}

} // verus!
