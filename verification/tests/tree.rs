use gloam::game_tree::{Node, Tree};

#[test]
fn new_node_is_detached() {
    let node = Node::new(5, "v");
    assert_eq!(node.idx(), 5);
    assert_eq!(*node.value(), "v");
    assert_eq!(node.parent(), None);
    assert!(node.children().is_empty());
}

#[test]
fn node_returns_consecutive_indices() {
    let mut tree = Tree::new();
    assert_eq!(tree.node("root"), 0);
    assert_eq!(tree.node("other"), 1);
    assert_eq!(tree.all_nodes.len(), 2);
    assert_eq!(tree.all_nodes[1].idx(), 1);
    assert_eq!(*tree.all_nodes[1].value(), "other");
    assert_eq!(tree.all_nodes[1].parent(), None);
}

#[test]
fn add_child_links_both_ways() {
    let mut tree = Tree::new();
    let root = tree.node("root");
    tree.add_child(root, "left");
    tree.add_child(root, "right");
    tree.add_child(1, "leaf");
    assert_eq!(tree.all_nodes.len(), 4);
    assert_eq!(tree.all_nodes[0].children(), &vec![1, 2]);
    assert_eq!(tree.all_nodes[1].children(), &vec![3]);
    assert!(tree.all_nodes[2].children().is_empty());
    assert_eq!(tree.all_nodes[1].parent(), Some(0));
    assert_eq!(tree.all_nodes[2].parent(), Some(0));
    assert_eq!(tree.all_nodes[3].parent(), Some(1));
    assert_eq!(tree.all_nodes[0].parent(), None);
    assert_eq!(*tree.all_nodes[3].value(), "leaf");
    assert_eq!(tree.all_nodes[3].idx(), 3);
}

#[test]
fn default_tree_is_empty() {
    let tree: Tree<u8> = Tree::default();
    assert!(tree.all_nodes.is_empty());
}
