//! Node handles and node views: the copyable index handle [`NodeId`], the
//! read-only view [`Node`], the value-mutating view [`NodeMut`], and the
//! builder cursor [`TreeMut`] that appends children in pre-order.

use vstd::prelude::*;

use crate::iter::{ChildrenIter, ParentIter, SiblingsIter};
use crate::preorder::{ancestor_chain, lemma_level_le_index, level_matches_from, open_at, run_end};
use crate::tree::Tree;

verus! {

/// A handle naming a position in the flat arrays of a [`crate::tree::Tree`].
///
/// It is nothing but the zero-based index; equality and ordering are index
/// equality and ordering.  Nothing ties a handle to the tree it came from:
/// looking one up in another tree is answered by bounds checking alone.
#[derive(Debug, Clone, Copy, PartialEq, Eq, PartialOrd, Ord, Hash, Structural)]
pub struct NodeId(pub usize);

impl NodeId {
    /// The handle of the node at array index `n`.
    pub fn from_index(n: usize) -> (r: Self)
        ensures
            r.0 == n,
    {
        NodeId(n)
    }

    /// The array index this handle names.
    pub fn to_index(self) -> (r: usize)
        ensures
            r == self.0,
    {
        self.0
    }
}

impl From<usize> for NodeId {
    fn from(x: usize) -> (r: Self) {
        NodeId(x)
    }
}

impl vstd::std_specs::convert::FromSpecImpl<usize> for NodeId {
    open spec fn obeys_from_spec() -> bool {
        true
    }

    open spec fn from_spec(x: usize) -> Self {
        NodeId(x)
    }
}

impl From<NodeId> for usize {
    fn from(x: NodeId) -> (r: Self) {
        x.0
    }
}

impl vstd::std_specs::convert::FromSpecImpl<NodeId> for usize {
    open spec fn obeys_from_spec() -> bool {
        true
    }

    open spec fn from_spec(x: NodeId) -> Self {
        x.0
    }
}

/// A read-only view of one node: its handle, a reference to its value, and
/// the tree it lives in.  Traversals start from here.
#[derive(Clone, Copy)]
pub struct Node<'a, T> {
    /// Node ID.
    pub id: NodeId,
    /// Data.
    pub data: &'a T,
    /// Tree containing the node.
    pub tree: &'a Tree<T>,
}

impl<'a, T> Node<'a, T> {
    /// The view is coherent: the handle is in bounds and the data reference
    /// points at the handle's slot.
    pub open spec fn wf(&self) -> bool {
        &&& self.id.0 < self.tree.data@.len()
        &&& (*self.data) == self.tree.data@[self.id.0 as int]
    }

    /// The level of this node: its depth below the root.
    pub fn level(&self) -> (r: usize)
        requires
            self.wf(),
            self.tree.lens_ok(),
        ensures
            r == self.tree.level@[self.id.0 as int],
    {
        self.tree.level[self.id.to_index()]
    }

    /// The index of this node's parent (the root records itself).
    pub fn parent(&self) -> (r: usize)
        requires
            self.wf(),
            self.tree.lens_ok(),
        ensures
            r == self.tree.parent@[self.id.0 as int],
    {
        self.tree.parent[self.id.to_index()]
    }

    /// The ancestor walk from this node: its parent, grandparent, and so on
    /// up to and including the root.
    pub fn parents(&self) -> (it: ParentIter<'_, T>)
        requires
            self.wf(),
            self.tree.wf(),
        ensures
            it.wf(),
            it.tree == self.tree,
            it.node == self.id,
            it.remaining() == ancestor_chain(self.tree.parent@, self.id.0 as int),
    {
        ParentIter { parent: self.parent(), node: self.id, tree: self.tree }
    }

    /// The descendant scan from this node: its whole subtree (all
    /// descendants, not just immediate children), in pre-order.
    pub fn children(&self) -> (it: ChildrenIter<'_, T>)
        requires
            self.wf(),
            self.tree.wf(),
        ensures
            it.wf(),
            it.tree == self.tree,
            it.parent == self.id,
            it.remaining() == Seq::new(
                (run_end(
                    self.tree.level@,
                    self.tree.level@[self.id.0 as int] as int,
                    self.id.0 + 1,
                ) - (self.id.0 + 1)) as nat,
                |k: int| self.id.0 + 1 + k,
            ),
    {
        ChildrenIter::new(self.id, self.tree)
    }

    /// The same-level scan from this node: every other node of the whole
    /// tree whose level equals this node's, in index order.
    pub fn siblings(&self) -> (it: SiblingsIter<'_, T>)
        requires
            self.wf(),
            self.tree.lens_ok(),
        ensures
            it.wf(),
            it.tree == self.tree,
            it.node == self.id,
            it.level == self.tree.level@[self.id.0 as int],
            it.pos == 0,
            it.remaining() == level_matches_from(
                self.tree.level@,
                self.tree.level@[self.id.0 as int] as int,
                self.id.0 as int,
                0,
            ),
    {
        SiblingsIter { pos: 0, level: self.level(), node: self.id, tree: self.tree }
    }
}

/// A mutable view of one node's value, for editing the payload in place.
/// The shape of the tree (levels and parents) cannot be reached through it.
pub struct NodeMut<'a, T> {
    /// Node ID.
    pub id: NodeId,
    /// Data.
    pub data: &'a mut T,
}

/// The builder cursor: a mutable handle on the tree that appends children
/// under the node recorded in `parent`, in depth-first pre-order.
///
/// [`TreeMut::push`] hands back a cursor on the new child, so chained
/// pushes descend; dropping the child cursor returns to this one, whose
/// node is then still open for further children.  This discipline is the
/// one mutation path that keeps the store in pre-order by construction.
pub struct TreeMut<'a, T> {
    /// Node ID.
    pub id: NodeId,
    /// Node ID of the parent: the node new children go under.
    pub parent: NodeId,
    /// Tree containing the node.
    pub tree: &'a mut Tree<T>,
}

impl<'a, T> TreeMut<'a, T> {
    /// The cursor can keep building: the tree is in pre-order, the recorded
    /// node is in bounds, and nothing at its level or above follows it, so
    /// an appended child lands in its contiguous run.
    pub open spec fn wf(&self) -> bool {
        &&& (*self.tree).wf()
        &&& self.parent.0 < (*self.tree).data@.len()
        &&& self.id.0 < (*self.tree).data@.len()
        &&& open_at((*self.tree).level@, self.parent.0 as int)
    }

    /// The level of the node this cursor appends under.
    pub fn get_parent_level(&self) -> (r: usize)
        requires
            self.parent.0 == 0 || self.parent.0 < (*self.tree).level@.len(),
        ensures
            r == (*old(self.tree)).level_of(self.parent.0 as int),
    {
        self.tree.get_level(self.parent)
    }

    /// Append a new node under this cursor's node, one level below it, and
    /// return the created [`NodeId`].  The cursor itself stays on its node,
    /// which remains open, so further children can follow.
    pub fn append(&mut self, data: T) -> (r: NodeId)
        requires
            old(self).wf(),
        ensures
            r.0 == (*old(self).tree).data@.len(),
            final(self).id == old(self).id,
            final(self).parent == old(self).parent,
            (*final(self).tree).data@ == (*old(self).tree).data@.push(data),
            (*final(self).tree).level@ == (*old(self).tree).level@.push(
                ((*old(self).tree).level_of(old(self).parent.0 as int) + 1) as usize,
            ),
            (*final(self).tree).parent@ == (*old(self).tree).parent@.push(old(self).parent.0),
            final(self).wf(),
            *final(old(self).tree) == *final(final(self).tree),
    {
        proof {
            lemma_level_le_index(
                (*self.tree).level@,
                (*self.tree).parent@,
                self.parent.0 as int,
            );
            vstd::std_specs::vec::axiom_spec_len(&(*self.tree).data);
        }
        let level = self.get_parent_level() + 1;
        self.tree.push_with_level(data, level, self.parent)
    }

    /// Append a new node under this cursor's node and return a cursor on
    /// the new node, so children of the child can be pushed in a builder
    /// pattern.  The new node is the last in the tree, hence open.
    pub fn push(&mut self, data: T) -> (c: TreeMut<'_, T>)
        requires
            old(self).wf(),
        ensures
            c.id.0 == (*old(self).tree).data@.len(),
            c.parent == c.id,
            (*c.tree).data@ == (*old(self).tree).data@.push(data),
            (*c.tree).level@ == (*old(self).tree).level@.push(
                ((*old(self).tree).level_of(old(self).parent.0 as int) + 1) as usize,
            ),
            (*c.tree).parent@ == (*old(self).tree).parent@.push(old(self).parent.0),
            c.wf(),
            final(self).id == old(self).id,
            final(self).parent == old(self).parent,
            (*final(self).tree) == *final(c.tree),
            *final(old(self).tree) == *final(final(self).tree),
    {
        let id = self.append(data);
        self.tree._make_tree_mut(id, id)
    }
}

} // verus!
