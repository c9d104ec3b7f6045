//! The flat store: three parallel vectors flattened in pre-order, plus the
//! validated, O(1) access and append operations over them.

use vstd::prelude::*;

use vstd::std_specs::cmp::PartialEqSpec;

use crate::iter::{IntoIter, TreeIter};
use crate::node::{Node, NodeId, NodeMut, TreeMut};
use crate::preorder::{
    ancestor_chain, lemma_ancestor_chain_props, lemma_pre_order_push, lemma_reaches_implies_run,
    lemma_root_open, lemma_run_implies_reaches, open_at, parent_link_ok, pre_order, reaches,
    run_end,
};

verus! {

/// Relies on std's `Vec::capacity`: reading the allocated capacity, which
/// is never below the length, changes nothing.
#[verifier::external_body]
fn vec_capacity<T>(v: &Vec<T>) -> (r: usize)
    ensures
        r >= v@.len(),
{
    v.capacity()
}

/// Relies on std's `Vec::reserve_exact`: it only grows the allocation; the
/// contents stay as they were.
#[verifier::external_body]
fn vec_reserve_exact<T>(v: &mut Vec<T>, additional: usize)
    ensures
        final(v)@ == old(v)@,
{
    v.reserve_exact(additional)
}

/// Relies on std's `Vec::try_reserve_exact`: whether or not the allocation
/// succeeds, the contents stay as they were.
#[verifier::external_body]
fn vec_try_reserve_exact<T>(v: &mut Vec<T>, additional: usize) -> (r: Result<
    (),
    std::collections::TryReserveError,
>)
    ensures
        final(v)@ == old(v)@,
{
    v.try_reserve_exact(additional)
}

/// Relies on std's `Vec::shrink_to_fit`: it only shrinks the allocation;
/// the contents stay as they were.
#[verifier::external_body]
fn vec_shrink_to_fit<T>(v: &mut Vec<T>)
    ensures
        final(v)@ == old(v)@,
{
    v.shrink_to_fit()
}

/// Relies on std's `Vec::shrink_to`: it only shrinks the allocation; the
/// contents stay as they were.
#[verifier::external_body]
fn vec_shrink_to<T>(v: &mut Vec<T>, min_capacity: usize)
    ensures
        final(v)@ == old(v)@,
{
    v.shrink_to(min_capacity)
}

/// Vec-backed tree, flattened in pre-order.
///
/// `data[i]` is the payload of node `i`, `level[i]` its depth below the
/// root, and `parent[i]` the index of its parent (the root is its own
/// parent).  A tree holds at least the root from construction on; only
/// [`Tree::pop`], [`Tree::truncate`], [`Tree::drain`] and [`Tree::clear`]
/// can shrink it.
#[derive(Debug, Clone)]
pub struct Tree<T> {
    pub data: Vec<T>,
    pub level: Vec<usize>,
    pub parent: Vec<usize>,
}

impl<T> Tree<T> {
    /// The three arrays run in parallel: equal lengths.
    pub open spec fn lens_ok(&self) -> bool {
        &&& self.level@.len() == self.data@.len()
        &&& self.parent@.len() == self.data@.len()
    }

    /// The store is a pre-order flattening (see [`crate::preorder`]).  The
    /// mutation API is designed to keep this true; every traversal assumes
    /// it.
    pub open spec fn wf(&self) -> bool {
        &&& self.lens_ok()
        &&& pre_order(self.level@, self.parent@)
    }

    /// Create a new [`Tree`] holding only the root node, with the given value.
    pub fn new(root: T) -> (t: Self)
        ensures
            t.data@ == seq![root],
            t.level@ == seq![0usize],
            t.parent@ == seq![0usize],
            t.wf(),
    {
        Self::with_capacity(root, 1)
    }

    /// Create a new [`Tree`] holding only the root node, pre-reserving
    /// capacity for `capacity` nodes.  Semantically the same as
    /// [`Tree::new`].
    pub fn with_capacity(root: T, capacity: usize) -> (t: Self)
        ensures
            t.data@ == seq![root],
            t.level@ == seq![0usize],
            t.parent@ == seq![0usize],
            t.wf(),
    {
        let mut t = Tree {
            data: Vec::with_capacity(capacity),
            level: Vec::with_capacity(capacity),
            parent: Vec::with_capacity(capacity),
        };
        t.push_with_level(root, 0, NodeId::from_index(0));
        proof {
            assert(t.data@ == seq![root]);
            assert(t.level@ == seq![0usize]);
            assert(t.parent@ == seq![0usize]);
        }
        t
    }

    /// The total number of nodes the tree can hold without reallocating.
    pub fn capacity(&self) -> (r: usize)
        ensures
            r >= self.data@.len(),
    {
        // Any of the three underlying vectors is good enough.
        vec_capacity(&self.data)
    }

    /// Reserve capacity for at least `additional` more nodes.  The contents
    /// are untouched; only the allocation may grow.
    pub fn reserve(&mut self, additional: usize)
        ensures
            final(self).data@ == old(self).data@,
            final(self).level@ == old(self).level@,
            final(self).parent@ == old(self).parent@,
    {
        self.data.reserve(additional);
        self.level.reserve(additional);
        self.parent.reserve(additional);
    }

    /// Reserve the minimum capacity for at least `additional` more nodes,
    /// without deliberate over-allocation.  The contents are untouched.
    pub fn reserve_exact(&mut self, additional: usize)
        ensures
            final(self).data@ == old(self).data@,
            final(self).level@ == old(self).level@,
            final(self).parent@ == old(self).parent@,
    {
        vec_reserve_exact(&mut self.data, additional);
        vec_reserve_exact(&mut self.level, additional);
        vec_reserve_exact(&mut self.parent, additional);
    }

    /// Try to reserve capacity for at least `additional` more nodes.  The
    /// contents are untouched whether or not the allocation succeeds; an
    /// error reports capacity overflow or allocator failure.
    pub fn try_reserve(&mut self, additional: usize) -> (r: Result<
        (),
        std::collections::TryReserveError,
    >)
        ensures
            final(self).data@ == old(self).data@,
            final(self).level@ == old(self).level@,
            final(self).parent@ == old(self).parent@,
    {
        self.data.try_reserve(additional)?;
        self.level.try_reserve(additional)?;
        self.parent.try_reserve(additional)
    }

    /// Try to reserve the minimum capacity for at least `additional` more
    /// nodes, without deliberate over-allocation.  The contents are
    /// untouched whether or not the allocation succeeds.
    pub fn try_reserve_exact(&mut self, additional: usize) -> (r: Result<
        (),
        std::collections::TryReserveError,
    >)
        ensures
            final(self).data@ == old(self).data@,
            final(self).level@ == old(self).level@,
            final(self).parent@ == old(self).parent@,
    {
        vec_try_reserve_exact(&mut self.data, additional)?;
        vec_try_reserve_exact(&mut self.level, additional)?;
        vec_try_reserve_exact(&mut self.parent, additional)
    }

    /// Shrink the capacity of the tree as much as possible.  The contents
    /// are untouched.
    pub fn shrink_to_fit(&mut self)
        ensures
            final(self).data@ == old(self).data@,
            final(self).level@ == old(self).level@,
            final(self).parent@ == old(self).parent@,
    {
        if self.capacity() > self.len() {
            vec_shrink_to_fit(&mut self.data);
            vec_shrink_to_fit(&mut self.level);
            vec_shrink_to_fit(&mut self.parent);
        }
    }

    /// Shrink the capacity of the tree with a lower bound.  The contents
    /// are untouched; if the capacity is already below the bound, nothing
    /// happens.
    pub fn shrink_to(&mut self, min_capacity: usize)
        ensures
            final(self).data@ == old(self).data@,
            final(self).level@ == old(self).level@,
            final(self).parent@ == old(self).parent@,
    {
        if self.capacity() > min_capacity {
            vec_shrink_to(&mut self.data, min_capacity);
            vec_shrink_to(&mut self.level, min_capacity);
            vec_shrink_to(&mut self.parent, min_capacity);
        }
    }

    /// Shorten the tree, keeping the first `len` nodes and dropping the
    /// rest.  Longer than the tree: no effect.  A shortened pre-order tree
    /// is still in pre-order.
    pub fn truncate(&mut self, len: usize)
        ensures
            final(self).data@ == (if len <= old(self).data@.len() {
                old(self).data@.subrange(0, len as int)
            } else {
                old(self).data@
            }),
            final(self).level@ == (if len <= old(self).level@.len() {
                old(self).level@.subrange(0, len as int)
            } else {
                old(self).level@
            }),
            final(self).parent@ == (if len <= old(self).parent@.len() {
                old(self).parent@.subrange(0, len as int)
            } else {
                old(self).parent@
            }),
            old(self).lens_ok() ==> final(self).lens_ok(),
            old(self).wf() ==> final(self).wf(),
    {
        proof {
            if len <= self.data@.len() && self.wf() {
                crate::preorder::lemma_pre_order_prefix(self.level@, self.parent@, len as int);
            }
        }
        self.data.truncate(len);
        self.level.truncate(len);
        self.parent.truncate(len);
    }

    /// Push a node into the tree, recording its level and parent exactly as
    /// given, and return its handle: always the new end of the arrays.
    ///
    /// Nothing is validated: the caller is responsible for pushing in
    /// pre-order (the builder cursor, [`crate::node::TreeMut`], always
    /// does).  The last `ensures` clause states the discipline under which
    /// the pre-order invariant is preserved.
    pub fn push_with_level(&mut self, data: T, level: usize, parent: NodeId) -> (r: NodeId)
        ensures
            r.0 == old(self).data@.len(),
            final(self).data@ == old(self).data@.push(data),
            final(self).level@ == old(self).level@.push(level),
            final(self).parent@ == old(self).parent@.push(parent.0),
            old(self).lens_ok() ==> final(self).lens_ok(),
            (old(self).wf() && parent.0 < old(self).data@.len() && level == old(self).level@[
                parent.0 as int] + 1 && open_at(old(self).level@, parent.0 as int))
                ==> final(self).wf(),
    {
        let parent_ix = parent.to_index();
        self.data.push(data);
        self.level.push(level);
        self.parent.push(parent_ix);
        proof {
            if old(self).wf() && parent.0 < old(self).data@.len() && level == old(self).level@[
                parent.0 as int] + 1 && open_at(old(self).level@, parent.0 as int) {
                lemma_pre_order_push(old(self).level@, old(self).parent@, parent.0, level);
            }
        }
        NodeId::from_index(self.data.len() - 1)
    }

    /// The level recorded for a handle, with the root pinned to level 0.
    pub open spec fn level_of(&self, i: int) -> usize {
        if i == 0 {
            0usize
        } else {
            self.level@[i]
        }
    }

    /// Get the level from a [`NodeId`].
    pub fn get_level(&self, of: NodeId) -> (r: usize)
        requires
            of.0 == 0 || of.0 < self.level@.len(),
        ensures
            r == self.level_of(of.0 as int),
    {
        if of.to_index() == 0 {
            0
        } else {
            self.level[of.to_index()]
        }
    }

    pub(crate) fn _make_node(&self, id: NodeId) -> (n: Node<'_, T>)
        requires
            id.0 < self.data@.len(),
        ensures
            n.id == id,
            n.tree == self,
            n.wf(),
    {
        Node { id, data: &self.data[id.to_index()], tree: self }
    }

    pub(crate) fn _make_node_mut(&mut self, id: NodeId) -> (nm: NodeMut<'_, T>)
        requires
            id.0 < old(self).data@.len(),
        ensures
            nm.id == id,
            *nm.data == old(self).data@[id.0 as int],
            final(self).data@ == old(self).data@.update(id.0 as int, *final(nm.data)),
            final(self).level@ == old(self).level@,
            final(self).parent@ == old(self).parent@,
    {
        NodeMut { id, data: &mut self.data[id.to_index()] }
    }

    pub(crate) fn _make_tree_mut(&mut self, id: NodeId, parent: NodeId) -> (c: TreeMut<'_, T>)
        ensures
            c.id == id,
            c.parent == parent,
            (*c.tree) == *old(self),
            *final(self) == *final(c.tree),
    {
        TreeMut { id, parent, tree: self }
    }

    /// Get a mutable [`TreeMut`] cursor on the root, so you can push
    /// children under it.  This always succeeds.
    pub fn tree_root_mut(&mut self) -> (c: TreeMut<'_, T>)
        ensures
            c.id.0 == 0,
            c.parent.0 == 0,
            (*c.tree) == *old(self),
            *final(self) == *final(c.tree),
            (old(self).wf() && old(self).data@.len() >= 1) ==> c.wf(),
    {
        proof {
            if self.wf() && self.data@.len() >= 1 {
                lemma_root_open(self.level@, self.parent@);
            }
        }
        self._make_tree_mut(NodeId::from_index(0), NodeId::from_index(0))
    }

    /// Get a mutable [`TreeMut`] cursor from a [`NodeId`], so you can push
    /// children under that node, or nothing if the handle lies outside the
    /// tree.  The cursor can build (`wf`) only while its node is still open:
    /// nothing at its level or above may follow it, or the pushed children
    /// would land outside its contiguous run.  That is the caller's
    /// responsibility, exactly as with any out-of-pre-order mutation.
    pub fn tree_node_mut(&mut self, id: NodeId) -> (r: Option<TreeMut<'_, T>>)
        ensures
            (id.0 < old(self).data@.len()) == r.is_some(),
            r matches Some(c) ==> {
                &&& c.id == id
                &&& c.parent == id
                &&& (*c.tree) == *old(self)
                &&& *final(self) == *final(c.tree)
                &&& ((old(self).wf() && open_at(old(self).level@, id.0 as int)) ==> c.wf())
            },
            r is None ==> *final(self) == *old(self),
    {
        if id.to_index() < self.data.len() {
            Some(self._make_tree_mut(id, id))
        } else {
            None
        }
    }

    /// Get the read-only [`Node`] view from a [`NodeId`], or nothing if the
    /// handle lies outside the tree.
    pub fn node(&self, id: NodeId) -> (r: Option<Node<'_, T>>)
        ensures
            (id.0 < self.data@.len()) == r.is_some(),
            r matches Some(n) ==> n.id == id && n.tree == self && n.wf(),
    {
        if id.to_index() < self.data.len() {
            Some(self._make_node(id))
        } else {
            None
        }
    }

    /// Get the root [`Node`] view.
    pub fn root(&self) -> (n: Node<'_, T>)
        requires
            self.data@.len() >= 1,
        ensures
            n.id.0 == 0,
            n.tree == self,
            n.wf(),
    {
        self._make_node(NodeId::from_index(0))
    }

    /// Get a mutable [`NodeMut`] view of a node's value from its [`NodeId`],
    /// or nothing if the handle lies outside the tree.
    pub fn node_mut(&mut self, id: NodeId) -> (r: Option<NodeMut<'_, T>>)
        ensures
            (id.0 < old(self).data@.len()) == r.is_some(),
            r matches Some(nm) ==> {
                &&& nm.id == id
                &&& *nm.data == old(self).data@[id.0 as int]
                &&& final(self).data@ == old(self).data@.update(id.0 as int, *final(nm.data))
                &&& final(self).level@ == old(self).level@
                &&& final(self).parent@ == old(self).parent@
            },
            r is None ==> *final(self) == *old(self),
    {
        if id.to_index() < self.data.len() {
            Some(self._make_node_mut(id))
        } else {
            None
        }
    }

    /// Get a mutable [`TreeMut`] cursor on the root: the entry point of the
    /// builder API.  This always succeeds.
    pub fn root_mut(&mut self) -> (c: TreeMut<'_, T>)
        ensures
            c.id.0 == 0,
            c.parent.0 == 0,
            (*c.tree) == *old(self),
            *final(self) == *final(c.tree),
            (old(self).wf() && old(self).data@.len() >= 1) ==> c.wf(),
    {
        self.tree_root_mut()
    }

    /// Remove the last node from the tree and return it as a triple
    /// `(data, level, parent)`, or nothing if the tree is empty.  A
    /// pre-order tree without its last node is still in pre-order.
    pub fn pop(&mut self) -> (r: Option<(T, usize, NodeId)>)
        requires
            old(self).lens_ok(),
        ensures
            final(self).lens_ok(),
            old(self).data@.len() == 0 ==> {
                &&& r is None
                &&& final(self).data@ == old(self).data@
                &&& final(self).level@ == old(self).level@
                &&& final(self).parent@ == old(self).parent@
            },
            old(self).data@.len() > 0 ==> {
                let last = old(self).data@.len() - 1;
                &&& r matches Some(t) && t.0 == old(self).data@[last] && t.1 == old(
                    self,
                ).level@[last] && t.2.0 == old(self).parent@[last]
                &&& final(self).data@ == old(self).data@.subrange(0, last)
                &&& final(self).level@ == old(self).level@.subrange(0, last)
                &&& final(self).parent@ == old(self).parent@.subrange(0, last)
            },
            old(self).wf() ==> final(self).wf(),
    {
        proof {
            if self.data@.len() > 0 && self.wf() {
                crate::preorder::lemma_pre_order_prefix(
                    self.level@,
                    self.parent@,
                    self.data@.len() - 1,
                );
            }
        }
        if let Some(data) = self.data.pop() {
            let level = self.level.pop().unwrap();
            let parent = self.parent.pop().unwrap();
            Some((data, level, NodeId::from_index(parent)))
        } else {
            None
        }
    }

    /// Remove the nodes of `range` from the tree in bulk and return them,
    /// in order, as `(data, level, parent)` triples.
    pub fn drain(&mut self, range: core::ops::Range<usize>) -> (r: Vec<(T, usize, NodeId)>)
        requires
            old(self).lens_ok(),
            range.start <= range.end,
            range.end <= old(self).data@.len(),
        ensures
            final(self).lens_ok(),
            r@.len() == range.end - range.start,
            forall|k: int|
                0 <= k < r@.len() ==> {
                    &&& (#[trigger] r@[k]).0 == old(self).data@[range.start + k]
                    &&& r@[k].1 == old(self).level@[range.start + k]
                    &&& r@[k].2.0 == old(self).parent@[range.start + k]
                },
            final(self).data@ == old(self).data@.subrange(0, range.start as int) + old(
                self,
            ).data@.subrange(range.end as int, old(self).data@.len() as int),
            final(self).level@ == old(self).level@.subrange(0, range.start as int) + old(
                self,
            ).level@.subrange(range.end as int, old(self).level@.len() as int),
            final(self).parent@ == old(self).parent@.subrange(0, range.start as int) + old(
                self,
            ).parent@.subrange(range.end as int, old(self).parent@.len() as int),
    {
        let start = range.start;
        let end = range.end;
        let mut out: Vec<(T, usize, NodeId)> = Vec::new();
        let mut k: usize = 0;
        while k < end - start
            invariant
                old(self).lens_ok(),
                start <= end <= old(self).data@.len(),
                0 <= k <= end - start,
                self.lens_ok(),
                out@.len() == k,
                forall|m: int|
                    0 <= m < k ==> {
                        &&& (#[trigger] out@[m]).0 == old(self).data@[start + m]
                        &&& out@[m].1 == old(self).level@[start + m]
                        &&& out@[m].2.0 == old(self).parent@[start + m]
                    },
                self.data@ == old(self).data@.subrange(0, start as int) + old(
                    self,
                ).data@.subrange(start + k, old(self).data@.len() as int),
                self.level@ == old(self).level@.subrange(0, start as int) + old(
                    self,
                ).level@.subrange(start + k, old(self).level@.len() as int),
                self.parent@ == old(self).parent@.subrange(0, start as int) + old(
                    self,
                ).parent@.subrange(start + k, old(self).parent@.len() as int),
            decreases end - start - k,
        {
            let data = self.data.remove(start);
            let level = self.level.remove(start);
            let parent = self.parent.remove(start);
            out.push((data, level, NodeId::from_index(parent)));
            k = k + 1;
            proof {
                assert(self.data@ =~= old(self).data@.subrange(0, start as int) + old(
                    self,
                ).data@.subrange(start + k, old(self).data@.len() as int));
                assert(self.level@ =~= old(self).level@.subrange(0, start as int) + old(
                    self,
                ).level@.subrange(start + k, old(self).level@.len() as int));
                assert(self.parent@ =~= old(self).parent@.subrange(0, start as int) + old(
                    self,
                ).parent@.subrange(start + k, old(self).parent@.len() as int));
            }
        }
        out
    }

    /// Clear the tree, removing all nodes.  The allocated capacity is
    /// untouched.
    pub fn clear(&mut self)
        ensures
            final(self).data@.len() == 0,
            final(self).level@.len() == 0,
            final(self).parent@.len() == 0,
            final(self).wf(),
    {
        self.data.clear();
        self.level.clear();
        self.parent.clear();
    }

    /// The number of nodes in the tree.
    pub fn len(&self) -> (r: usize)
        ensures
            r == self.data@.len(),
    {
        self.data.len()
    }

    /// Whether the tree holds no nodes at all (only possible after popping
    /// or truncating the root away).
    pub fn is_empty(&self) -> (r: bool)
        ensures
            r == (self.data@.len() == 0),
    {
        self.data.is_empty()
    }

    /// A fresh full pre-order scan over all nodes, in insertion order.
    pub fn iter(&self) -> (it: TreeIter<'_, T>)
        ensures
            it.tree == self,
            it.pos == 0,
            it.wf(),
            it.remaining() == Seq::new(self.data@.len(), |k: int| k),
    {
        proof {
            assert(Seq::new(self.data@.len(), |k: int| 0 + k) =~= Seq::new(
                self.data@.len(),
                |k: int| k,
            ));
        }
        TreeIter { pos: 0, tree: self }
    }

    /// An adapter holding the tree, from which a full pre-order scan can be
    /// taken.
    pub fn into_iter(&self) -> (it: IntoIter<'_, T>)
        ensures
            it.tree == self,
    {
        IntoIter { tree: self }
    }

    /// A slice view of the internal data.
    pub fn as_data(&self) -> (r: &[T])
        ensures
            r@ == self.data@,
    {
        self.data.as_slice()
    }

    /// A mutable slice view of the internal data: values can be edited in
    /// place, but the shape of the tree cannot be reached through it.
    pub fn as_data_mut(&mut self) -> (r: &mut [T])
        ensures
            r@ == old(self).data@,
            final(self).data@ == final(r)@,
            final(self).level@ == old(self).level@,
            final(self).parent@ == old(self).parent@,
    {
        self.data.as_mut_slice()
    }

    /// A slice view of the internal levels.
    pub fn as_level(&self) -> (r: &[usize])
        ensures
            r@ == self.level@,
    {
        self.level.as_slice()
    }

    /// A slice view of the internal parent indices.
    pub fn as_parents(&self) -> (r: &[usize])
        ensures
            r@ == self.parent@,
    {
        self.parent.as_slice()
    }

    /// Consume the tree and move out the data, in pre-order.
    pub fn to_data(self) -> (r: Vec<T>)
        ensures
            r@ == self.data@,
    {
        self.data
    }

    /// The sequence of values a fresh full pre-order scan yields: the value
    /// at index 0, then index 1, and so on.  [`TreeIter::next`] pins the
    /// scan to exactly these indices in this order.
    pub open spec fn preorder_values(&self) -> Seq<T> {
        Seq::new(self.data@.len(), |k: int| self.data@[k])
    }

    /// Pre-order identity: for a tree built through the builder alone, the
    /// full pre-order scan yields the values in exactly the order they were
    /// pushed.  Every builder push appends its value at the end of `data`
    /// (the `ensures` of [`TreeMut::push`] and [`TreeMut::append`]), and
    /// the scan yields `data` in index order, so each push extends the scan
    /// by exactly the pushed value.
    pub proof fn lemma_preorder_identity(t1: &Tree<T>, t2: &Tree<T>, v: T)
        requires
            t2.data@ == t1.data@.push(v),
        ensures
            t2.preorder_values() == t1.preorder_values().push(v),
    {
        assert(t2.preorder_values() =~= t1.preorder_values().push(v));
    }

    /// Ancestor chain termination: for every non-root node of a pre-order
    /// tree, the ancestor chain is finite — exactly as long as the node's
    /// level — starts at the node's recorded parent one level above it,
    /// steps down exactly one level at a time over strictly decreasing
    /// indices, and ends by reaching the root at index 0.
    pub proof fn lemma_ancestor_chain_terminates(&self, i: int)
        requires
            self.wf(),
            1 <= i < self.data@.len(),
        ensures
            ancestor_chain(self.parent@, i).len() == self.level@[i],
            ancestor_chain(self.parent@, i).len() >= 1,
            ancestor_chain(self.parent@, i)[0] == self.parent@[i],
            self.level@[self.parent@[i] as int] + 1 == self.level@[i],
            forall|k: int|
                0 <= k < ancestor_chain(self.parent@, i).len() ==> self.level@[
                    #[trigger] ancestor_chain(self.parent@, i)[k] as int] == self.level@[i] - 1
                    - k,
            forall|k: int, m: int|
                0 <= k < m < ancestor_chain(self.parent@, i).len()
                    ==> #[trigger] ancestor_chain(self.parent@, i)[m]
                    < #[trigger] ancestor_chain(self.parent@, i)[k],
            ancestor_chain(self.parent@, i).last() == 0,
    {
        assert(parent_link_ok(self.level@, self.parent@, i));
        lemma_ancestor_chain_props(self.level@, self.parent@, i);
    }

    /// Descendant contiguity: on a pre-order tree, the nodes whose parent
    /// chain reaches `p` — the descendants of `p` — are exactly the maximal
    /// contiguous run of nodes after `p` whose level exceeds `p`'s level,
    /// the very run the descendant scan walks.
    pub proof fn lemma_descendants_contiguous(&self, p: int)
        requires
            self.wf(),
            0 <= p < self.data@.len(),
        ensures
            forall|j: int|
                0 <= j < self.data@.len() ==> (#[trigger] reaches(self.parent@, j, p) <==> p < j
                    < run_end(self.level@, self.level@[p] as int, p + 1)),
    {
        assert forall|j: int| 0 <= j < self.data@.len() implies (#[trigger] reaches(
            self.parent@,
            j,
            p,
        ) <==> p < j < run_end(self.level@, self.level@[p] as int, p + 1)) by {
            if reaches(self.parent@, j, p) {
                lemma_reaches_implies_run(self.level@, self.parent@, p, j);
            }
            if p < j < run_end(self.level@, self.level@[p] as int, p + 1) {
                lemma_run_implies_reaches(self.level@, self.parent@, p, j);
            }
        }
    }
}

impl<T: PartialEq + PartialEqSpec> PartialEq for Tree<T> {
    /// Structural comparison: two trees are equal when their three arrays
    /// are equal element for element.
    fn eq(&self, other: &Self) -> (r: bool) {
        let d = self.data == other.data;
        let l = self.level == other.level;
        let p = self.parent == other.parent;
        proof {
            if l {
                assert(self.level@ =~= other.level@);
            }
            if p {
                assert(self.parent@ =~= other.parent@);
            }
        }
        d && l && p
    }
}

impl<T: PartialEq + PartialEqSpec> vstd::std_specs::cmp::PartialEqSpecImpl for Tree<T> {
    open spec fn obeys_eq_spec() -> bool {
        T::obeys_eq_spec()
    }

    open spec fn eq_spec(&self, other: &Self) -> bool {
        &&& self.data@.len() == other.data@.len()
        &&& forall|i: int|
            0 <= i < self.data@.len() ==> (#[trigger] self.data@[i]).eq_spec(&other.data@[i])
        &&& self.level@ == other.level@
        &&& self.parent@ == other.parent@
    }
}

/// Round trip: two trees that hold the same (value, level, parent)
/// triples — the values equal under the payload's own equality — are equal
/// under the structural comparison that `==` on [`Tree`] performs, no
/// matter how each of them was built.
pub proof fn lemma_same_triples_equal<T: PartialEq + PartialEqSpec>(a: &Tree<T>, b: &Tree<T>)
    requires
        a.data@.len() == b.data@.len(),
        forall|i: int| 0 <= i < a.data@.len() ==> (#[trigger] a.data@[i]).eq_spec(&b.data@[i]),
        a.level@ == b.level@,
        a.parent@ == b.parent@,
    ensures
        a.eq_spec(b),
{
}

} // verus!
