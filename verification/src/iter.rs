//! The four lazy traversals over a flat tree: full pre-order scan, ancestor
//! walk, descendant run, and same-level scan.  Each carries only a cursor
//! into the borrowed tree and advances monotonically; once a producer
//! yields nothing it never yields again.
//!
//! Each producer states its whole future output as a `remaining` sequence
//! of indices, and `next` peels exactly the first entry off it.

use vstd::prelude::*;

use crate::node::{Node, NodeId};
use crate::preorder::{ancestor_chain, level_matches_from, parent_link_ok, run_end};
use crate::tree::Tree;

verus! {

/// The full pre-order scan: yields every node from index 0 to the end, in
/// increasing index order, which by the pre-order invariant is exactly
/// construction order.
pub struct TreeIter<'a, T> {
    pub pos: usize,
    pub tree: &'a Tree<T>,
}

impl<'a, T> TreeIter<'a, T> {
    /// The cursor never points past the end of the tree.
    pub open spec fn wf(&self) -> bool {
        self.pos <= self.tree.data@.len()
    }

    /// The indices still to be yielded: everything from the cursor on.
    pub open spec fn remaining(&self) -> Seq<int> {
        Seq::new((self.tree.data@.len() - self.pos) as nat, |k: int| self.pos + k)
    }

    /// Yield the node at the cursor and advance, or nothing once the scan
    /// has passed the end.
    pub fn next(&mut self) -> (r: Option<Node<'a, T>>)
        requires
            old(self).wf(),
        ensures
            final(self).tree == old(self).tree,
            final(self).wf(),
            old(self).remaining().len() == 0 ==> r is None && *final(self) == *old(self),
            old(self).remaining().len() > 0 ==> {
                &&& r matches Some(n) && n.tree == old(self).tree && n.wf() && n.id.0 == old(
                    self,
                ).remaining()[0]
                &&& final(self).remaining() == old(self).remaining().subrange(
                    1,
                    old(self).remaining().len() as int,
                )
            },
    {
        if self.pos < self.tree.len() {
            let id = NodeId::from_index(self.pos);
            self.pos = self.pos + 1;
            proof {
                assert(self.remaining() =~= old(self).remaining().subrange(
                    1,
                    old(self).remaining().len() as int,
                ));
            }
            Some(self.tree._make_node(id))
        } else {
            None
        }
    }

    /// Bounds on how many nodes are still to come: never more than the
    /// whole tree.
    pub fn size_hint(&self) -> (r: (usize, Option<usize>))
        requires
            self.wf(),
        ensures
            r.0 == 0,
            r.1 == Some(self.tree.data@.len() as usize),
            self.remaining().len() <= self.tree.data@.len(),
    {
        (0, Some(self.tree.len()))
    }
}

/// An adapter that hands out the full pre-order scan of the borrowed tree.
pub struct IntoIter<'a, T> {
    pub tree: &'a Tree<T>,
}

impl<'a, T> IntoIter<'a, T> {
    /// A fresh full scan, starting at the root.
    pub fn into_iter(self) -> (it: TreeIter<'a, T>)
        ensures
            it.tree == self.tree,
            it.pos == 0,
            it.wf(),
            it.remaining() == Seq::new(self.tree.data@.len(), |k: int| k),
    {
        proof {
            assert(Seq::new(self.tree.data@.len(), |k: int| 0 + k) =~= Seq::new(
                self.tree.data@.len(),
                |k: int| k,
            ));
        }
        TreeIter { pos: 0, tree: self.tree }
    }
}

/// The ancestor walk: from a node's recorded parent, follow parent links
/// and yield each, stopping after the root has been yielded.  The starting
/// node itself is not yielded, and the root has no ancestors.
pub struct ParentIter<'a, T> {
    pub parent: usize,
    pub node: NodeId,
    pub tree: &'a Tree<T>,
}

impl<'a, T> ParentIter<'a, T> {
    /// The walk sits on a real node of a pre-order tree and caches that
    /// node's recorded parent.
    pub open spec fn wf(&self) -> bool {
        &&& self.tree.wf()
        &&& self.node.0 < self.tree.data@.len()
        &&& self.parent == self.tree.parent@[self.node.0 as int]
    }

    /// The indices still to be yielded: the whole parent chain of the
    /// current node, nearest first, ending at the root.
    pub open spec fn remaining(&self) -> Seq<usize> {
        ancestor_chain(self.tree.parent@, self.node.0 as int)
    }

    /// Yield the next ancestor and step up, or nothing once the root has
    /// been reached.
    pub fn next(&mut self) -> (r: Option<Node<'a, T>>)
        requires
            old(self).wf(),
        ensures
            final(self).tree == old(self).tree,
            final(self).wf(),
            old(self).remaining().len() == 0 ==> r is None && *final(self) == *old(self),
            old(self).remaining().len() > 0 ==> {
                &&& r matches Some(n) && n.tree == old(self).tree && n.wf() && n.id.0 == old(
                    self,
                ).remaining()[0]
                &&& final(self).remaining() == old(self).remaining().subrange(
                    1,
                    old(self).remaining().len() as int,
                )
            },
    {
        if self.node.to_index() > 0 {
            proof {
                assert(parent_link_ok(self.tree.level@, self.tree.parent@, self.node.0 as int));
                if self.parent > 0 {
                    assert(parent_link_ok(self.tree.level@, self.tree.parent@, self.parent as int));
                }
            }
            self.node = NodeId::from_index(self.parent);
            self.parent = self.tree.parent[self.parent];
            proof {
                assert(old(self).remaining() =~= seq![old(self).parent] + self.remaining());
                assert(self.remaining() =~= old(self).remaining().subrange(
                    1,
                    old(self).remaining().len() as int,
                ));
            }
            Some(self.tree._make_node(self.node))
        } else {
            None
        }
    }
}

/// The descendant scan: from the position just after a node, yield every
/// node while its level exceeds the node's level.  By the pre-order
/// invariant this contiguous run is exactly the node's full subtree,
/// excluding the node itself (see
/// [`crate::tree::Tree::lemma_descendants_contiguous`]).
pub struct ChildrenIter<'a, T> {
    pub pos: usize,
    pub parent: NodeId,
    pub range: &'a [usize],
    pub tree: &'a Tree<T>,
}

impl<'a, T> ChildrenIter<'a, T> {
    /// The scan hangs off a real node of a pre-order tree; `range` is the
    /// tail of the parent array after that node (the scan only uses its
    /// length), and the one-based cursor sits at most one past it.
    pub open spec fn wf(&self) -> bool {
        &&& self.tree.wf()
        &&& self.parent.0 < self.tree.data@.len()
        &&& self.range@ == self.tree.parent@.subrange(
            self.parent.0 + 1,
            self.tree.parent@.len() as int,
        )
        &&& 1 <= self.pos <= self.range@.len() + 1
    }

    /// Where the scan stands in the tree: the index it will look at next.
    pub open spec fn cursor(&self) -> int {
        self.parent.0 + self.pos
    }

    /// The indices still to be yielded: from the cursor to the end of the
    /// contiguous run of entries deeper than the node's level.
    pub open spec fn remaining(&self) -> Seq<int> {
        Seq::new(
            (run_end(
                self.tree.level@,
                self.tree.level@[self.parent.0 as int] as int,
                self.cursor(),
            ) - self.cursor()) as nat,
            |k: int| self.cursor() + k,
        )
    }

    /// A fresh descendant scan for the node `parent` of `tree`, starting
    /// just after it.
    pub fn new(parent: NodeId, tree: &'a Tree<T>) -> (it: Self)
        requires
            tree.wf(),
            parent.0 < tree.data@.len(),
        ensures
            it.tree == tree,
            it.parent == parent,
            it.pos == 1,
            it.wf(),
            it.remaining() == Seq::new(
                (run_end(tree.level@, tree.level@[parent.0 as int] as int, parent.0 + 1) - (
                parent.0 + 1)) as nat,
                |k: int| parent.0 + 1 + k,
            ),
    {
        proof {
            vstd::std_specs::vec::axiom_spec_len(&tree.parent);
        }
        let range = vstd::slice::slice_subrange(
            tree.parent.as_slice(),
            parent.to_index() + 1,
            tree.parent.len(),
        );
        ChildrenIter { pos: 1, parent, range, tree }
    }

    /// Yield the next node of the run and advance, or nothing once the
    /// first node at or above the parent's level (or the end of the tree)
    /// has been met.
    pub fn next(&mut self) -> (r: Option<Node<'a, T>>)
        requires
            old(self).wf(),
        ensures
            final(self).tree == old(self).tree,
            final(self).parent == old(self).parent,
            final(self).wf(),
            old(self).remaining().len() == 0 ==> r is None && final(self).remaining().len() == 0,
            old(self).remaining().len() > 0 ==> {
                &&& r matches Some(n) && n.tree == old(self).tree && n.wf() && n.id.0 == old(
                    self,
                ).remaining()[0]
                &&& final(self).remaining() == old(self).remaining().subrange(
                    1,
                    old(self).remaining().len() as int,
                )
            },
    {
        proof {
            vstd::std_specs::vec::axiom_spec_len(&self.tree.data);
        }
        let ghost lev = self.tree.level@;
        let ghost l = self.tree.level@[self.parent.0 as int] as int;
        proof {
            crate::preorder::lemma_run_end_bounds(lev, l, old(self).cursor());
        }
        if self.pos <= self.range.len() {
            let idx = self.parent.to_index();
            let level_parent = self.tree.level[idx];
            let node = NodeId::from_index(self.pos + idx);
            let level_child = self.tree.level[node.to_index()];
            if level_child > level_parent {
                self.pos = self.pos + 1;
                proof {
                    crate::preorder::lemma_run_end_bounds(lev, l, self.cursor());
                    assert(run_end(lev, l, old(self).cursor()) == run_end(lev, l, self.cursor()));
                    assert(self.remaining() =~= old(self).remaining().subrange(
                        1,
                        old(self).remaining().len() as int,
                    ));
                }
                Some(self.tree._make_node(node))
            } else {
                // The run has ended for good: park the cursor one past the
                // whole range so the scan stays exhausted.
                self.pos = self.range.len() + 1;
                proof {
                    assert(run_end(lev, l, old(self).cursor()) == old(self).cursor());
                    assert(self.cursor() == lev.len());
                    assert(run_end(lev, l, self.cursor()) == self.cursor());
                }
                None
            }
        } else {
            proof {
                assert(self.cursor() == lev.len());
                assert(run_end(lev, l, self.cursor()) == self.cursor());
            }
            None
        }
    }
}

/// The same-level scan: yields every node of the whole tree whose level
/// equals the starting node's level, in index order, skipping the starting
/// node itself.  Deliberately a global level match, not a common-parent
/// match: equally deep nodes under different ancestors count too.
pub struct SiblingsIter<'a, T> {
    pub pos: usize,
    pub level: usize,
    pub node: NodeId,
    pub tree: &'a Tree<T>,
}

impl<'a, T> SiblingsIter<'a, T> {
    /// The scan cursor never points past the end of the tree.
    pub open spec fn wf(&self) -> bool {
        &&& self.tree.lens_ok()
        &&& self.pos <= self.tree.data@.len()
    }

    /// The indices still to be yielded: everything at or after the cursor
    /// whose level matches, the starting node excluded.
    pub open spec fn remaining(&self) -> Seq<usize> {
        level_matches_from(
            self.tree.level@,
            self.level as int,
            self.node.0 as int,
            self.pos as int,
        )
    }

    /// Yield the next same-level node and move past it, or nothing once no
    /// match is left.
    pub fn next(&mut self) -> (r: Option<Node<'a, T>>)
        requires
            old(self).wf(),
        ensures
            final(self).tree == old(self).tree,
            final(self).level == old(self).level,
            final(self).node == old(self).node,
            final(self).wf(),
            old(self).remaining().len() == 0 ==> r is None && *final(self) == *old(self),
            old(self).remaining().len() > 0 ==> {
                &&& r matches Some(n) && n.tree == old(self).tree && n.wf() && n.id.0 == old(
                    self,
                ).remaining()[0]
                &&& final(self).remaining() == old(self).remaining().subrange(
                    1,
                    old(self).remaining().len() as int,
                )
            },
    {
        let ghost lev = self.tree.level@;
        let ghost l = self.level as int;
        let ghost excl = self.node.0 as int;
        let mut i = self.pos;
        loop
            invariant
                self.wf(),
                *self == *old(self),
                self.pos <= i <= self.tree.data@.len(),
                level_matches_from(lev, l, excl, self.pos as int) == level_matches_from(
                    lev,
                    l,
                    excl,
                    i as int,
                ),
                lev == self.tree.level@,
                l == self.level as int,
                excl == self.node.0 as int,
            decreases self.tree.data@.len() - i,
        {
            if i >= self.tree.len() {
                return None;
            }
            if self.tree.level[i] == self.level && i != self.node.to_index() {
                self.pos = i + 1;
                proof {
                    assert(old(self).remaining() =~= seq![i] + self.remaining());
                    assert(self.remaining() =~= old(self).remaining().subrange(
                        1,
                        old(self).remaining().len() as int,
                    ));
                }
                return Some(self.tree._make_node(NodeId::from_index(i)));
            }
            i = i + 1;
        }
    }
}

} // verus!
