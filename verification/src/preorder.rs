//! The pre-order shape of the flat representation, as pure facts about the
//! `level` and `parent` sequences, together with the proofs that the two
//! derived traversals (ancestor chain, descendant run) mean what they say.

use vstd::prelude::*;

verus! {

/// One entry is linked correctly: its parent sits strictly before it, one
/// level above it, and every entry strictly between the two is deeper than
/// the parent (so the entry lies inside its parent's contiguous subtree).
pub open spec fn parent_link_ok(level: Seq<usize>, parent: Seq<usize>, i: int) -> bool {
    &&& parent[i] < i
    &&& level[parent[i] as int] + 1 == level[i]
    &&& forall|j: int| parent[i] < j < i ==> #[trigger] level[j] > level[parent[i] as int]
}

/// The whole store is a pre-order flattening: the root (if any) sits at
/// index 0 on level 0 and is its own parent, and every later entry is
/// linked correctly.
pub open spec fn pre_order(level: Seq<usize>, parent: Seq<usize>) -> bool {
    &&& level.len() == parent.len()
    &&& level.len() >= 1 ==> level[0] == 0 && parent[0] == 0
    &&& forall|i: int| 1 <= i < level.len() ==> #[trigger] parent_link_ok(level, parent, i)
}

/// First position at or after `i` whose level does not exceed `l`, or the
/// length of the sequence if every position from `i` on is deeper than `l`.
/// For a node at level `l` sitting just before `i`, the half-open range
/// `i..run_end(level, l, i)` is its contiguous run of deeper entries.
pub open spec fn run_end(level: Seq<usize>, l: int, i: int) -> int
    decreases level.len() - i,
{
    if 0 <= i < level.len() && level[i] > l {
        run_end(level, l, i + 1)
    } else {
        i
    }
}

/// The parent chain starting at `d` passes through `a`: `a` is a proper
/// ancestor of `d`.  The walk stops (yielding `false`) as soon as a link
/// fails to point strictly backwards, so it is well defined on every
/// sequence; on a pre-order store it follows the recorded parents.
pub open spec fn reaches(parent: Seq<usize>, d: int, a: int) -> bool
    decreases d,
{
    if 0 < d < parent.len() && parent[d] < d {
        parent[d] == a || reaches(parent, parent[d] as int, a)
    } else {
        false
    }
}

/// The indices on the parent chain from `i` up to the root, nearest
/// ancestor first, the starting index itself excluded.
pub open spec fn ancestor_chain(parent: Seq<usize>, i: int) -> Seq<usize>
    decreases i,
{
    if 0 < i < parent.len() && parent[i] < i {
        seq![parent[i]] + ancestor_chain(parent, parent[i] as int)
    } else {
        Seq::empty()
    }
}

/// The indices at or after `i`, in increasing order, whose level equals
/// `l`, skipping the index `excl`.
pub open spec fn level_matches_from(level: Seq<usize>, l: int, excl: int, i: int) -> Seq<usize>
    decreases level.len() - i,
{
    if 0 <= i < level.len() {
        if level[i] == l && i != excl {
            seq![i as usize] + level_matches_from(level, l, excl, i + 1)
        } else {
            level_matches_from(level, l, excl, i + 1)
        }
    } else {
        Seq::empty()
    }
}

/// The node at `p` is still open for children: nothing at its level or
/// above has been appended after it, so a child appended at the end of the
/// arrays lands inside `p`'s contiguous run.  This is the shape the builder
/// cursor maintains for the node it points at.
pub open spec fn open_at(level: Seq<usize>, p: int) -> bool {
    forall|j: int| p < j < level.len() ==> #[trigger] level[j] > level[p]
}

/// Appending an entry one level below a still-open node keeps the store in
/// pre-order.
pub proof fn lemma_pre_order_push(level: Seq<usize>, parent: Seq<usize>, p: usize, l: usize)
    requires
        pre_order(level, parent),
        p < level.len(),
        l == level[p as int] + 1,
        open_at(level, p as int),
    ensures
        pre_order(level.push(l), parent.push(p)),
{
    let level2 = level.push(l);
    let parent2 = parent.push(p);
    let n = level.len() as int;
    assert forall|i: int| 1 <= i < level2.len() implies #[trigger] parent_link_ok(
        level2,
        parent2,
        i,
    ) by {
        if i < n {
            assert(parent_link_ok(level, parent, i));
            assert forall|j: int| parent2[i] < j < i implies #[trigger] level2[j]
                > level2[parent2[i] as int] by {
                assert(level[j] > level[parent[i] as int]);
            }
        } else {
            assert forall|j: int| parent2[i] < j < i implies #[trigger] level2[j]
                > level2[parent2[i] as int] by {
                assert(level[j] > level[p as int]);
            }
        }
    }
}

/// Basic bounds of `run_end`: it stays within `[i, len]`, everything
/// strictly inside the run is deeper than `l`, and the run stops either at
/// the end of the sequence or at the first entry at level `l` or above.
pub proof fn lemma_run_end_bounds(level: Seq<usize>, l: int, i: int)
    requires
        0 <= i <= level.len(),
    ensures
        i <= run_end(level, l, i) <= level.len(),
        forall|j: int| i <= j < run_end(level, l, i) ==> #[trigger] level[j] > l,
        run_end(level, l, i) < level.len() ==> level[run_end(level, l, i)] <= l,
    decreases level.len() - i,
{
    if 0 <= i < level.len() && level[i] > l {
        lemma_run_end_bounds(level, l, i + 1);
    }
}

/// A run swallows any prefix known to be deeper than `l`: if everything in
/// `[i, j]` is deeper than `l`, the run starting at `i` continues past `j`.
pub proof fn lemma_run_end_past(level: Seq<usize>, l: int, i: int, j: int)
    requires
        0 <= i <= j < level.len(),
        forall|k: int| i <= k <= j ==> #[trigger] level[k] > l,
    ensures
        run_end(level, l, i) > j,
    decreases j - i,
{
    if i < j {
        lemma_run_end_past(level, l, i + 1, j);
    } else {
        lemma_run_end_bounds(level, l, i + 1);
    }
}

/// Any prefix of a pre-order store is itself in pre-order: every link
/// points strictly backwards, so cutting the arrays short invalidates
/// nothing before the cut.
pub proof fn lemma_pre_order_prefix(level: Seq<usize>, parent: Seq<usize>, n: int)
    requires
        pre_order(level, parent),
        0 <= n <= level.len(),
    ensures
        pre_order(level.subrange(0, n), parent.subrange(0, n)),
{
    let level2 = level.subrange(0, n);
    let parent2 = parent.subrange(0, n);
    assert forall|i: int| 1 <= i < level2.len() implies #[trigger] parent_link_ok(
        level2,
        parent2,
        i,
    ) by {
        assert(parent_link_ok(level, parent, i));
        assert forall|j: int| parent2[i] < j < i implies #[trigger] level2[j]
            > level2[parent2[i] as int] by {
            assert(level[j] > level[parent[i] as int]);
        }
    }
}

/// On a pre-order store a node's level never exceeds its index: each entry
/// lies exactly one level below a parent that sits strictly before it.
pub proof fn lemma_level_le_index(level: Seq<usize>, parent: Seq<usize>, i: int)
    requires
        pre_order(level, parent),
        0 <= i < level.len(),
    ensures
        level[i] <= i,
    decreases i,
{
    if i > 0 {
        assert(parent_link_ok(level, parent, i));
        lemma_level_le_index(level, parent, parent[i] as int);
    }
}

/// The root of a pre-order store is always open for children: everything
/// after it lies strictly below level 0.
pub proof fn lemma_root_open(level: Seq<usize>, parent: Seq<usize>)
    requires
        pre_order(level, parent),
        level.len() >= 1,
    ensures
        open_at(level, 0),
{
    assert forall|j: int| 0 < j < level.len() implies #[trigger] level[j] > level[0] by {
        assert(parent_link_ok(level, parent, j));
    }
}

/// On a pre-order store the ancestor chain of any node is finite and fully
/// determined: it has exactly `level[i]` entries, their levels step down by
/// exactly one from `level[i] - 1` to `0`, their indices are strictly
/// decreasing and in bounds, it starts at the recorded parent, and it ends
/// at the root.
pub proof fn lemma_ancestor_chain_props(level: Seq<usize>, parent: Seq<usize>, i: int)
    requires
        pre_order(level, parent),
        0 <= i < parent.len(),
    ensures
        ancestor_chain(parent, i).len() == level[i],
        forall|k: int|
            0 <= k < ancestor_chain(parent, i).len() ==> level[#[trigger] ancestor_chain(
                parent,
                i,
            )[k] as int] == level[i] - 1 - k,
        forall|k: int|
            0 <= k < ancestor_chain(parent, i).len() ==> #[trigger] ancestor_chain(parent, i)[k]
                < i,
        forall|k: int, m: int|
            0 <= k < m < ancestor_chain(parent, i).len() ==> #[trigger] ancestor_chain(parent, i)[m]
                < #[trigger] ancestor_chain(parent, i)[k],
        i > 0 ==> ancestor_chain(parent, i)[0] == parent[i],
        level[i] > 0 ==> ancestor_chain(parent, i).last() == 0,
    decreases i,
{
    let c = ancestor_chain(parent, i);
    if i == 0 {
        assert(c.len() == 0);
    } else {
        assert(parent_link_ok(level, parent, i));
        let p = parent[i] as int;
        lemma_ancestor_chain_props(level, parent, p);
        let c2 = ancestor_chain(parent, p);
        assert(c == seq![parent[i]] + c2);
        assert(c[0] == parent[i]);
        assert forall|k: int| 0 <= k < c.len() implies level[#[trigger] c[k] as int] == level[i] - 1
            - k by {
            if k > 0 {
                assert(c[k] == c2[k - 1]);
            }
        }
        assert forall|k: int| 0 <= k < c.len() implies #[trigger] c[k] < i by {
            if k > 0 {
                assert(c[k] == c2[k - 1]);
            }
        }
        assert forall|k: int, m: int| 0 <= k < m < c.len() implies #[trigger] c[m]
            < #[trigger] c[k] by {
            assert(c[m] == c2[m - 1]);
            if k > 0 {
                assert(c[k] == c2[k - 1]);
            } else {
                assert(c2[m - 1] < p);
            }
        }
        if level[i] > 1 {
            assert(c.last() == c2.last());
        } else {
            // The parent sits on level 0; on a pre-order store only the
            // root does, since every later entry lies one level below its
            // own parent.
            if p > 0 {
                assert(parent_link_ok(level, parent, p));
                assert(false);
            }
        }
    }
}

/// Everything inside the contiguous deeper run after `p` descends from `p`:
/// the node at `j` reaches `p` along recorded parent links.
pub proof fn lemma_run_implies_reaches(level: Seq<usize>, parent: Seq<usize>, p: int, j: int)
    requires
        pre_order(level, parent),
        0 <= p < j < level.len(),
        j < run_end(level, level[p] as int, p + 1),
    ensures
        reaches(parent, j, p),
    decreases j,
{
    let l = level[p] as int;
    let q = run_end(level, l, p + 1);
    lemma_run_end_bounds(level, l, p + 1);
    assert(parent_link_ok(level, parent, j));
    let pj = parent[j] as int;
    if pj < p {
        // Impossible: `p` would sit strictly between `j`'s parent and `j`,
        // so `p` would be deeper than that parent, yet `j` (inside `p`'s
        // run) is deeper than `p`, making the parent at least as deep as
        // `p`.
        assert(level[p as int] > level[pj]);
        assert(level[j] > l);
        assert(false);
    }
    if pj > p {
        assert(level[pj] > l);
        lemma_run_implies_reaches(level, parent, p, pj);
    }
}

/// Every descendant of `p` lies inside the contiguous deeper run after `p`.
pub proof fn lemma_reaches_implies_run(level: Seq<usize>, parent: Seq<usize>, p: int, j: int)
    requires
        pre_order(level, parent),
        0 <= p < level.len(),
        0 <= j < level.len(),
        reaches(parent, j, p),
    ensures
        p < j < run_end(level, level[p] as int, p + 1),
        level[j] > level[p],
    decreases j,
{
    let l = level[p] as int;
    assert(parent_link_ok(level, parent, j));
    let pj = parent[j] as int;
    if pj == p {
        assert forall|k: int| p + 1 <= k <= j implies #[trigger] level[k] > l by {
            if k < j {
                assert(level[k] > level[pj]);
            }
        }
        lemma_run_end_past(level, l, p + 1, j);
    } else {
        lemma_reaches_implies_run(level, parent, p, pj);
        lemma_run_end_bounds(level, l, p + 1);
        assert forall|k: int| p + 1 <= k <= j implies #[trigger] level[k] > l by {
            if k <= pj {
                assert(level[k] > l);
            } else if k < j {
                assert(level[k] > level[pj]);
            } else {
                assert(level[j] == level[pj] + 1);
            }
        }
        lemma_run_end_past(level, l, p + 1, j);
    }
}

} // verus!
