//! A rooted, ordered tree flattened into three parallel vectors.
//!
//! A tree built strictly in depth-first pre-order is stored as three
//! same-length vectors (`data`, `level`, `parent`) indexed by a small
//! copyable handle.  Appending a child is an amortized O(1) vector push,
//! and every traversal (full scan, ancestors, descendants, same-level
//! nodes) is a linear walk over the flat arrays with no auxiliary
//! structures.
//!
//! The shape of a valid store is captured by the pre-order invariant
//! ([`tree::Tree::wf`]): every non-root entry records a parent that sits
//! strictly before it, one level above it, with only deeper entries in
//! between.  The builder cursor ([`node::TreeMut`]) maintains this
//! invariant by construction; the traversal contracts and the proved
//! properties about ancestor chains and descendant runs all assume it.

pub mod iter;
pub mod node;
pub mod preorder;
pub mod prelude;
pub mod tree;
