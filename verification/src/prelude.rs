pub use crate::iter::{ChildrenIter, IntoIter, ParentIter, SiblingsIter, TreeIter};
pub use crate::node::{Node, NodeId, NodeMut, TreeMut};
pub use crate::tree::Tree;
