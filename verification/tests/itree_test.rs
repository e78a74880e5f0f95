use rsvim_core::ui::tree::internal::inode::Inode;
use rsvim_core::ui::tree::internal::itree::{Itree, ItreeIterateOrder, ItreeIterator};

// The tree of the tests:
//
//        1
//      / | \
//     2  3  4
//    / \     \
//   5   6     7
fn make_tree() -> Itree<&'static str> {
    let mut tree = Itree::new();
    assert_eq!(tree.insert(None, Inode::new(1, "one")), Some(1));
    assert_eq!(tree.insert(Some(1), Inode::new(2, "two")), Some(2));
    assert_eq!(tree.insert(Some(1), Inode::new(3, "three")), Some(3));
    assert_eq!(tree.insert(Some(1), Inode::new(4, "four")), Some(4));
    assert_eq!(tree.insert(Some(2), Inode::new(5, "five")), Some(5));
    assert_eq!(tree.insert(Some(2), Inode::new(6, "six")), Some(6));
    assert_eq!(tree.insert(Some(4), Inode::new(7, "seven")), Some(7));
    tree
}

fn visit(tree: &Itree<&'static str>, mut iterator: ItreeIterator) -> Vec<usize> {
    let mut visited = vec![];
    while let Some(id) = iterator.next(tree) {
        visited.push(id);
    }
    visited
}

#[test]
fn new_tree_is_empty() {
    let tree: Itree<u8> = Itree::new();
    assert!(tree.is_empty());
    assert!(tree.root().is_none());
    assert!(tree.get(1).is_none());
    assert!(!tree.contains(1));
    assert!(visit_none(&tree).is_empty());
}

fn visit_none(tree: &Itree<u8>) -> Vec<usize> {
    let mut iterator = tree.iter();
    let mut visited = vec![];
    while let Some(id) = iterator.next(tree) {
        visited.push(id);
    }
    visited
}

#[test]
fn nodes_know_their_parents_and_children() {
    let tree = make_tree();
    assert!(!tree.is_empty());
    assert_eq!(tree.root(), Some(1));
    let root = tree.get(1).unwrap();
    assert_eq!(root.id(), 1);
    assert_eq!(*root.value(), "one");
    assert_eq!(root.parent(), None);
    assert_eq!(root.children(), Some(&vec![2, 3, 4]));
    let two = tree.get(2).unwrap();
    assert_eq!(two.parent(), Some(1));
    assert_eq!(two.children(), Some(&vec![5, 6]));
    let three = tree.get(3).unwrap();
    assert_eq!(three.parent(), Some(1));
    assert_eq!(three.children(), None);
    assert_eq!(*tree.get(7).unwrap().value(), "seven");
    assert_eq!(tree.get(7).unwrap().parent(), Some(4));
    assert!(tree.get(8).is_none());
    for id in 1..=7 {
        assert!(tree.contains(id));
    }
    assert!(!tree.contains(0));
}

#[test]
fn tree_is_visited_level_by_level() {
    let tree = make_tree();
    assert_eq!(visit(&tree, tree.iter()), vec![1, 2, 3, 4, 5, 6, 7]);
    assert_eq!(
        visit(&tree, tree.ordered_iter(ItreeIterateOrder::Ascent)),
        vec![1, 2, 3, 4, 5, 6, 7]
    );
    assert_eq!(
        visit(&tree, tree.ordered_iter(ItreeIterateOrder::Descent)),
        vec![1, 4, 3, 2, 7, 6, 5]
    );
    assert_eq!(
        visit(&tree, ItreeIterator::new(Some(2), ItreeIterateOrder::Ascent)),
        vec![2, 5, 6]
    );
    assert_eq!(
        visit(&tree, ItreeIterator::new(None, ItreeIterateOrder::Descent)),
        Vec::<usize>::new()
    );
    assert_eq!(
        visit(&tree, ItreeIterator::new(Some(9), ItreeIterateOrder::Ascent)),
        vec![9]
    );
}

#[test]
fn removed_child_leaves_the_tree_with_what_is_below_it() {
    let mut tree = make_tree();
    assert_eq!(tree.remove(1, 3), None);
    assert_eq!(tree.remove(9, 0), None);
    assert_eq!(tree.remove(3, 0), None);
    assert_eq!(tree.remove(1, 0), Some(2));
    assert_eq!(tree.get(1).unwrap().children(), Some(&vec![3, 4]));
    assert!(tree.get(2).is_none());
    assert!(tree.get(5).is_none());
    assert!(tree.get(6).is_none());
    assert!(!tree.contains(5));
    assert!(tree.contains(7));
    assert_eq!(visit(&tree, tree.iter()), vec![1, 3, 4, 7]);
    // What was removed is still a tree of its own.
    assert_eq!(
        visit(&tree, ItreeIterator::new(Some(2), ItreeIterateOrder::Descent)),
        vec![2, 6, 5]
    );
    assert_eq!(tree.remove(4, 0), Some(7));
    assert_eq!(tree.get(4).unwrap().children(), None);
    assert_eq!(visit(&tree, tree.iter()), vec![1, 3, 4]);
}

#[test]
fn root_can_be_changed() {
    let mut tree = make_tree();
    assert_eq!(tree.remove(1, 0), Some(2));
    assert_eq!(tree.set_root(Some(2)), Some(1));
    assert_eq!(tree.root(), Some(2));
    assert!(tree.contains(5));
    assert!(!tree.contains(1));
    assert!(!tree.contains(7));
    assert_eq!(visit(&tree, tree.iter()), vec![2, 5, 6]);
    assert_eq!(tree.insert(Some(6), Inode::new(8, "eight")), Some(8));
    assert_eq!(visit(&tree, tree.iter()), vec![2, 5, 6, 8]);
    assert_eq!(tree.set_root(None), Some(2));
    assert!(tree.is_empty());
    assert!(!tree.contains(2));
    assert_eq!(tree.set_root(Some(1)), None);
    assert_eq!(visit(&tree, tree.iter()), vec![1, 3, 4, 7]);
}
