use labeled_tree::tree::Tree;

#[test]
fn a_unique_label_receives_the_child_once() {
    let mut tree = Tree::new(1u64);
    tree.add_child(Tree::new(2));
    tree.add_child(Tree::new(3));
    tree.add_leaf_at_label(&3, 4);
    // 1[2, 3[4]]
    let mut sub = Tree::new(7u64);
    sub.add_child(Tree::new(8));
    tree.add_child_at_label(&3, &sub);
    assert_eq!(tree.ascii(), "1[2, 3[4, 7[8]]]");
    assert_eq!(tree.order(), 6);
    let third = tree.get_child(1).unwrap();
    assert_eq!(third.get_child_label(0), Some(&4));
    assert_eq!(third.get_child_label(1), Some(&7));
    assert_eq!(third.get_child_label(2), None);
    // what was attached is a copy
    assert_eq!(sub.order(), 2);
}

#[test]
fn only_the_shallowest_node_on_a_path_receives_the_child() {
    let mut tree = Tree::new(1u64);
    tree.add_child(Tree::new(2));
    tree.add_leaf_at_label(&2, 1);
    assert_eq!(tree.ascii(), "1[2[1]]");
    tree.add_child_at_label(&1, &Tree::new(9));
    assert_eq!(tree.ascii(), "1[2[1], 9]");
    assert_eq!(tree.order(), 4);
    let grandchild = tree.get_child(0).unwrap().get_child(0).unwrap();
    assert_eq!(grandchild.label(), &1);
    assert!(grandchild.root_children().is_none());
}

#[test]
fn a_label_below_another_is_reached_where_the_root_differs() {
    let mut tree = Tree::new(0u64);
    tree.add_child(Tree::new(1));
    tree.add_leaf_at_label(&1, 2);
    tree.add_leaf_at_label(&2, 1);
    // 0[1[2[1]]]
    assert_eq!(tree.ascii(), "0[1[2[1]]]");
    tree.add_leaf_at_label(&1, 9);
    assert_eq!(tree.ascii(), "0[1[2[1], 9]]");
}

#[test]
fn each_branch_with_the_label_receives_a_copy() {
    let mut tree = Tree::new(1u64);
    tree.add_child(Tree::new(2));
    tree.add_child(Tree::new(3));
    tree.add_child(Tree::new(2));
    tree.add_leaf_at_label(&3, 2);
    // 1[2, 3[2], 2]
    tree.add_child_at_label(&2, &Tree::new(5));
    assert_eq!(tree.ascii(), "1[2[5], 3[2[5]], 2[5]]");
    assert_eq!(tree.order(), 8);
}

#[test]
fn a_label_that_no_node_carries_changes_nothing() {
    let mut tree = Tree::new(1u64);
    tree.add_child(Tree::new(2));
    tree.add_child(Tree::new(3));
    let before = tree.clone();
    tree.add_child_at_label(&4, &Tree::new(5));
    assert_eq!(tree, before);
    assert_eq!(tree.ascii(), "1[2, 3]");
    tree.add_leaf_at_label(&0, 5);
    assert_eq!(tree, before);
}

#[test]
fn a_leaf_with_the_label_becomes_a_node() {
    let mut tree = Tree::new(1u64);
    tree.add_leaf_at_label(&2, 3);
    assert!(tree.root_children().is_none());
    tree.add_leaf_at_label(&1, 3);
    assert_eq!(tree.root_children().unwrap().len(), 1);
    assert_eq!(tree.label(), &1);
    assert_eq!(tree.get_child_label(0), Some(&3));
}

#[test]
fn a_tree_can_receive_a_copy_of_itself() {
    let mut tree = Tree::new(1);
    tree.add_child(Tree::new(2));
    tree.add_child(Tree::new(3));
    tree.add_child(Tree::new(4));
    assert_eq!(tree.ascii(), "1[2, 3, 4]");
    assert_eq!(tree.order(), 4);
    assert_eq!(tree.depth(), 2);
    tree.add_leaf_at_label(&2, 5);
    assert_eq!(tree.ascii(), "1[2[5], 3, 4]");
    assert_eq!(tree.order(), 5);
    let whole = tree.clone();
    tree.add_child_at_label(&5, &whole);
    assert_eq!(tree.ascii(), "1[2[5[1[2[5], 3, 4]]], 3, 4]");
    assert_eq!(tree.order(), 10);
    assert_eq!(tree.depth(), 6);
}
