use tree_flat::node::NodeId;
use tree_flat::prelude::Tree;

fn collect_children(tree: &Tree<&str>, of: usize) -> Vec<String> {
    let node = tree.node(NodeId::from_index(of)).unwrap();
    let mut it = node.children();
    let mut out = Vec::new();
    while let Some(x) = it.next() {
        out.push(x.data.to_string());
    }
    out
}

fn collect_parents(tree: &Tree<&str>, of: usize) -> Vec<String> {
    let node = tree.node(NodeId::from_index(of)).unwrap();
    let mut it = node.parents();
    let mut out = Vec::new();
    while let Some(x) = it.next() {
        out.push(x.data.to_string());
    }
    out
}

// The canonical example: a small file hierarchy built in pre-order.
#[test]
fn canonical_example() {
    let mut tree = Tree::with_capacity("Users", 6);

    let mut root = tree.root_mut();

    let mut child = root.push("jhon_doe");
    child.push("file1.rs");
    child.push("file2.rs");

    let mut child = root.push("jane_doe");
    child.push("cat.jpg");
    drop(child);
    drop(root);

    assert_eq!(
        tree.as_data(),
        ["Users", "jhon_doe", "file1.rs", "file2.rs", "jane_doe", "cat.jpg"]
    );
    assert_eq!(tree.as_level(), [0, 1, 2, 2, 1, 2]);
    assert_eq!(tree.as_parents(), [0, 0, 1, 1, 0, 4]);

    // Descendants of jhon_doe (index 1): exactly its two files.
    assert_eq!(collect_children(&tree, 1), ["file1.rs", "file2.rs"]);

    // Ancestors of file2.rs (index 3): its parent, then the root.
    assert_eq!(collect_parents(&tree, 3), ["jhon_doe", "Users"]);

    // Same-level nodes match by level across the whole tree, not by shared
    // parent: cat.jpg counts as a sibling of the files under jhon_doe.
    let node = tree.node(NodeId::from_index(2)).unwrap();
    let mut it = node.siblings();
    let mut sibs = Vec::new();
    while let Some(x) = it.next() {
        sibs.push(x.data.to_string());
    }
    assert_eq!(sibs, ["file2.rs", "cat.jpg"]);
}

// Append-only growth: every push grows the tree by exactly one node and
// the three arrays stay the same length.
#[test]
fn growth_one_by_one() {
    let mut tree = Tree::new(0usize);
    assert_eq!(tree.len(), 1);
    for i in 1..50usize {
        let before = tree.len();
        let mut root = tree.root_mut();
        root.push(i);
        drop(root);
        assert_eq!(tree.len(), before + 1);
        assert_eq!(tree.data.len(), tree.len());
        assert_eq!(tree.level.len(), tree.len());
        assert_eq!(tree.parent.len(), tree.len());
    }
}

// The builder hands out handles in insertion order, and append returns the
// handle of the node it created.
#[test]
fn append_returns_new_handle() {
    let mut tree = Tree::new(0i32);
    let mut root = tree.root_mut();
    let a = root.append(1);
    let b = root.append(2);
    drop(root);
    assert_eq!(a.to_index(), 1);
    assert_eq!(b.to_index(), 2);
    assert_eq!(tree.as_data(), [0, 1, 2]);
}

#[test]
fn node_id_round_trip() {
    let id = NodeId::from_index(5);
    assert_eq!(id.to_index(), 5);
    let id: NodeId = 3usize.into();
    assert_eq!(usize::from(id), 3);
    assert_eq!(NodeId::from_index(2), NodeId::from_index(2));
    assert!(NodeId::from_index(1) < NodeId::from_index(2));
}

#[test]
fn get_level_reads_levels() {
    let mut tree = Tree::new("a");
    let mut root = tree.root_mut();
    let mut c = root.push("b");
    let g = c.append("c");
    drop(c);
    drop(root);
    assert_eq!(tree.get_level(NodeId::from_index(0)), 0);
    assert_eq!(tree.get_level(NodeId::from_index(1)), 1);
    assert_eq!(tree.get_level(g), 2);
}

#[test]
fn pop_returns_last_triples() {
    let mut tree = Tree::new(10i32);
    let mut root = tree.root_mut();
    root.push(20).push(30);
    drop(root);

    let (d, l, p) = tree.pop().unwrap();
    assert_eq!((d, l, p.to_index()), (30, 2, 1));
    let (d, l, p) = tree.pop().unwrap();
    assert_eq!((d, l, p.to_index()), (20, 1, 0));
    assert!(!tree.is_empty());
    let (d, l, p) = tree.pop().unwrap();
    assert_eq!((d, l, p.to_index()), (10, 0, 0));
    assert!(tree.is_empty());
    assert!(tree.pop().is_none());
}

#[test]
fn truncate_keeps_prefix() {
    let mut tree = Tree::new(0i32);
    let mut root = tree.root_mut();
    root.push(1).push(2);
    root.push(3);
    drop(root);

    tree.truncate(10);
    assert_eq!(tree.len(), 4);
    tree.truncate(2);
    assert_eq!(tree.as_data(), [0, 1]);
    assert_eq!(tree.as_level(), [0, 1]);
    assert_eq!(tree.as_parents(), [0, 0]);
}

#[test]
fn drain_removes_range() {
    let mut tree = Tree::new(0i32);
    let mut root = tree.root_mut();
    root.push(1).push(2);
    root.push(3);
    drop(root);
    // data [0,1,2,3], level [0,1,2,1], parent [0,0,1,0]

    let drained = tree.drain(1..3);
    let triples: Vec<(i32, usize, usize)> =
        drained.iter().map(|t| (t.0, t.1, t.2.to_index())).collect();
    assert_eq!(triples, [(1, 1, 0), (2, 2, 1)]);
    assert_eq!(tree.as_data(), [0, 3]);
    assert_eq!(tree.as_level(), [0, 1]);
    assert_eq!(tree.as_parents(), [0, 0]);

    let none = tree.drain(1..1);
    assert!(none.is_empty());
    assert_eq!(tree.len(), 2);
}

#[test]
fn clear_empties() {
    let mut tree = Tree::new(1i32);
    let mut root = tree.root_mut();
    root.push(2);
    drop(root);
    tree.clear();
    assert!(tree.is_empty());
    assert_eq!(tree.len(), 0);
}

#[test]
fn node_mut_edits_value_in_place() {
    let mut tree = Tree::new(1i32);
    let mut root = tree.root_mut();
    root.push(2);
    drop(root);

    let nm = tree.node_mut(NodeId::from_index(1)).unwrap();
    assert_eq!(nm.id.to_index(), 1);
    *nm.data = 20;
    assert_eq!(tree.as_data(), [1, 20]);
    assert!(tree.node_mut(NodeId::from_index(2)).is_none());

    let slice = tree.as_data_mut();
    slice[0] = 10;
    assert_eq!(tree.as_data(), [10, 20]);
    // The shape is untouched by value edits.
    assert_eq!(tree.as_level(), [0, 1]);
    assert_eq!(tree.as_parents(), [0, 0]);
}

#[test]
fn to_data_moves_values_out() {
    let mut tree = Tree::new(5i32);
    let mut root = tree.root_mut();
    root.push(6);
    drop(root);
    assert_eq!(tree.to_data(), [5, 6]);
}

#[test]
fn node_views_read_level_and_parent() {
    let mut tree = Tree::new(7i32);
    let mut root = tree.root_mut();
    root.push(8).push(9);
    drop(root);

    let root_view = tree.root();
    assert_eq!(root_view.id.to_index(), 0);
    assert_eq!(root_view.level(), 0);
    assert_eq!(root_view.parent(), 0);

    let grand = tree.node(NodeId::from_index(2)).unwrap();
    assert_eq!(*grand.data, 9);
    assert_eq!(grand.level(), 2);
    assert_eq!(grand.parent(), 1);
}

#[test]
fn iter_restarts_from_scratch() {
    let tree = {
        let mut t = Tree::new(1i32);
        let mut root = t.root_mut();
        root.push(2);
        root.push(3);
        drop(root);
        t
    };
    let mut first = Vec::new();
    let mut it = tree.iter();
    while let Some(x) = it.next() {
        first.push(*x.data);
    }
    // A fresh producer rereads from index 0.
    let mut second = Vec::new();
    let mut it = tree.iter();
    while let Some(x) = it.next() {
        second.push(*x.data);
    }
    assert_eq!(first, [1, 2, 3]);
    assert_eq!(first, second);
}

#[test]
fn exhausted_iterators_stay_exhausted() {
    let mut tree = Tree::new(1i32);
    let mut root = tree.root_mut();
    root.push(2).push(3);
    root.push(4);
    drop(root);
    // data [1,2,3,4], level [0,1,2,1]

    // Descendants of node 1 are [2,3]; after the run ends, node 3 (value 4)
    // must not appear even though it is deeper than nothing -- exhaustion
    // is permanent.
    let n = tree.node(NodeId::from_index(1)).unwrap();
    let mut it = n.children();
    assert_eq!(*it.next().unwrap().data, 3);
    assert!(it.next().is_none());
    assert!(it.next().is_none());
    assert!(it.next().is_none());

    let mut it = tree.iter();
    while it.next().is_some() {}
    assert!(it.next().is_none());

    let n = tree.node(NodeId::from_index(2)).unwrap();
    let mut it = n.parents();
    assert_eq!(*it.next().unwrap().data, 2);
    assert_eq!(*it.next().unwrap().data, 1);
    assert!(it.next().is_none());
    assert!(it.next().is_none());

    let mut it = n.siblings();
    assert!(it.next().is_none());
    assert!(it.next().is_none());
}

#[test]
fn tree_node_mut_appends_under_its_node() {
    let mut tree = Tree::new(0i32);
    let mut root = tree.root_mut();
    root.push(1);
    drop(root);
    // data [0,1], level [0,1], parent [0,0]; node 1 is the last, so still open.

    // A cursor from tree_node_mut pushes under the node it was asked for.
    let mut cur = tree.tree_node_mut(NodeId::from_index(1)).unwrap();
    assert_eq!(cur.id.to_index(), 1);
    assert_eq!(cur.parent.to_index(), 1);
    assert_eq!(cur.get_parent_level(), 1);
    cur.append(2);
    drop(cur);
    assert_eq!(tree.as_data(), [0, 1, 2]);
    assert_eq!(tree.as_level(), [0, 1, 2]);
    assert_eq!(tree.as_parents(), [0, 0, 1]);

    assert!(tree.tree_node_mut(NodeId::from_index(9)).is_none());

    let mut cur = tree.tree_root_mut();
    cur.append(3);
    drop(cur);
    assert_eq!(tree.as_data(), [0, 1, 2, 3]);
    assert_eq!(tree.as_level(), [0, 1, 2, 1]);
    assert_eq!(tree.as_parents(), [0, 0, 1, 0]);
}

#[test]
fn capacity_bookkeeping_keeps_contents() {
    let mut tree = Tree::with_capacity(1i32, 100);
    assert!(tree.capacity() >= 100);
    let mut root = tree.root_mut();
    root.push(2);
    drop(root);

    tree.reserve(200);
    assert!(tree.capacity() >= 202);
    tree.reserve_exact(300);
    assert!(tree.capacity() >= 302);
    assert!(tree.try_reserve(50).is_ok());
    assert!(tree.try_reserve_exact(50).is_ok());

    tree.shrink_to_fit();
    assert!(tree.capacity() >= tree.len());
    assert!(tree.capacity() < 100);
    tree.reserve(100);
    tree.shrink_to(10);
    assert!(tree.capacity() >= 10);
    assert!(tree.capacity() < 102);

    // Through it all, the contents never moved.
    assert_eq!(tree.as_data(), [1, 2]);
    assert_eq!(tree.as_level(), [0, 1]);
    assert_eq!(tree.as_parents(), [0, 0]);
}

// Round trip: the same (value, level, parent) triples, reached through the
// builder on one side and raw pushes on the other, compare equal.
#[test]
fn equal_triples_compare_equal() {
    let mut tree1 = Tree::new(0i32);
    let mut root = tree1.root_mut();
    root.push(1).push(2);
    drop(root);

    let mut tree2 = Tree::new(0i32);
    let p = tree2.push_with_level(1, 1, 0.into());
    tree2.push_with_level(2, 2, p);

    assert_eq!(tree1, tree2);

    let mut tree3 = tree2.clone();
    tree3.push_with_level(3, 1, 0.into());
    assert!(tree1 != tree3);
}
