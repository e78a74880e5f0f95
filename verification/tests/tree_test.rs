use rsvim_core::cart::{IPos, IRect, U16Pos, U16Rect, U16Size, UPos, USize};
use rsvim_core::ui::tree::opt::{WindowGlobalOptions, WindowGlobalOptionsBuilder, DEFAULT_BREAK_AT};
use rsvim_core::ui::tree::{Edge, Node, Tree};
use rsvim_core::ui::widget::cursor::{Cursor, CursorStyle};
use rsvim_core::ui::widget::root::RootWidget;
use rsvim_core::uuid::{next, Uuids};

fn cursor_node(ids: &mut Uuids) -> (usize, Node) {
    let cursor = Cursor::new(ids);
    (cursor.id(), Node::Cursor(cursor))
}

#[test]
fn ids_count_up_from_one() {
    let mut ids = Uuids::new();
    assert_eq!(next(&mut ids), 1);
    assert_eq!(next(&mut ids), 2);
    assert_eq!(next(&mut ids), 3);
}

#[test]
fn rectangles_are_ordered() {
    let rect = U16Rect::new((7, 9), (3, 4));
    assert_eq!(rect.min(), U16Pos::new(3, 4));
    assert_eq!(rect.max(), U16Pos::new(7, 9));
    assert_eq!(rect.width(), 4);
    assert_eq!(rect.height(), 5);
    let size = U16Size::new(2, 1);
    assert_eq!((size.width(), size.height()), (2, 1));

    let rect = IRect::new((5, -3), (-2, 4));
    assert_eq!(rect.min(), IPos::new(-2, -3));
    assert_eq!(rect.max(), IPos::new(5, 4));
    assert_eq!(rect.size(), USize::new(7, 7));
    let whole = IRect::new((isize::MIN, isize::MIN), (isize::MAX, isize::MAX));
    assert_eq!(whole.size(), USize::new(usize::MAX, usize::MAX));
    let moved = IRect::from_pos_size(IPos::new(isize::MIN, -1), USize::new(usize::MAX, 3));
    assert_eq!(moved.max(), IPos::new(isize::MAX, 2));
    assert_eq!(UPos::new(1, 2).x(), 1);
    assert_eq!(UPos::new(1, 2).y(), 2);
}

#[test]
fn new_cursor_blinks() {
    let mut ids = Uuids::new();
    let cursor = Cursor::new(&mut ids);
    assert_eq!(cursor.id(), 1);
    assert!(cursor.blinking());
    assert!(!cursor.hidden());
    assert_eq!(cursor.style(), CursorStyle::DefaultUserShape);
    assert_eq!(Cursor::new(&mut ids).id(), 2);
}

#[test]
fn new_root_widget() {
    let mut ids = Uuids::new();
    let mut root = RootWidget::new(&mut ids, USize::new(80, 24));
    assert_eq!(root.id(), 1);
    assert_eq!(root.size(), USize::new(80, 24));
    assert_eq!(root.offset(), IPos::new(0, 0));
    assert_eq!(root.abs_offset(), UPos::new(0, 0));
    assert_eq!(root.zindex(), 0);
    assert!(root.visible());
    assert!(root.enabled());
    assert!(root.parent().is_none());
    assert!(root.children().is_empty());
    root.set_offset(IPos::new(3, 3));
    root.set_zindex(9);
    root.set_size(USize::new(10, 5));
    root.set_visible(false);
    root.set_enabled(false);
    assert_eq!(root.offset(), IPos::new(0, 0));
    assert_eq!(root.zindex(), 0);
    assert_eq!(root.size(), USize::new(10, 5));
    assert!(!root.visible());
    assert!(!root.enabled());
}

#[test]
fn tree_starts_empty() {
    let tree = Tree::new();
    assert!(tree.get_root_node().is_none());
    assert!(tree.get_node(1).is_none());
    assert!(tree.get_parent(1).is_none());
    assert!(tree.get_children(1).is_none());
    assert!(tree.get_shape(1).is_none());
    assert!(tree.get_size(1).is_none());
    assert!(tree.get_pos(1).is_none());
    assert!(tree.get_zindex(1).is_none());
    assert!(tree.get_visible(1).is_none());
    assert!(tree.get_enabled(1).is_none());
    assert!(tree.get_edge(1, 2).is_none());
}

#[test]
fn tree_links_parents_and_children() {
    let mut ids = Uuids::new();
    let mut tree = Tree::new();
    let root = RootWidget::new(&mut ids, USize::new(80, 24));
    let root_id = root.id();
    assert!(tree
        .insert_root_node(root_id, Node::RootWidget(root), USize::new(80, 24))
        .is_none());
    assert_eq!(tree.get_root_node(), Some(root_id));
    assert_eq!(tree.get_size(root_id), Some(USize::new(80, 24)));
    assert_eq!(tree.get_pos(root_id), Some(IPos::new(0, 0)));
    assert_eq!(tree.get_zindex(root_id), Some(&0));
    assert_eq!(tree.get_visible(root_id), Some(&true));
    assert_eq!(tree.get_enabled(root_id), Some(&true));

    let (a, node_a) = cursor_node(&mut ids);
    let (b, node_b) = cursor_node(&mut ids);
    assert!(tree
        .insert_node(a, node_a, root_id, IRect::new((1, 2), (4, 6)))
        .is_none());
    assert!(tree
        .insert_node(b, node_b, a, IRect::new((0, 0), (1, 1)))
        .is_none());
    assert_eq!(tree.get_parent(a), Some(&root_id));
    assert_eq!(tree.get_parent(b), Some(&a));
    assert!(tree.get_parent(root_id).is_none());
    assert!(tree.get_children(root_id).unwrap().contains(&a));
    assert_eq!(tree.get_children(a).unwrap().len(), 1);
    assert_eq!(tree.get_edge(root_id, a), Some(Edge::new(root_id, a)));
    assert_eq!(tree.get_edge(a, b), Some(Edge { from: a, to: b }));
    assert!(tree.get_edge(root_id, b).is_none());
    assert!(tree.get_edge(a, root_id).is_none());
    assert!(matches!(tree.get_node(a), Some(Node::Cursor(_))));
    assert!(matches!(tree.get_node(root_id), Some(Node::RootWidget(_))));
    assert_eq!(tree.get_size(a), Some(USize::new(3, 4)));
    assert_eq!(tree.get_pos(a), Some(IPos::new(1, 2)));

    // A node that is inserted again under another parent leaves the first.
    let (_, again) = cursor_node(&mut ids);
    assert!(tree
        .insert_node(b, again, root_id, IRect::new((0, 0), (2, 2)))
        .is_some());
    assert_eq!(tree.get_parent(b), Some(&root_id));
    assert!(tree.get_children(a).unwrap().is_empty());
    assert!(tree.get_children(root_id).unwrap().contains(&b));

    // Removing a node takes it from its parent.
    assert!(tree.remove_node(a).is_some());
    assert!(tree.get_node(a).is_none());
    assert!(tree.get_parent(a).is_none());
    assert!(!tree.get_children(root_id).unwrap().contains(&a));
    assert!(tree.get_children(root_id).unwrap().contains(&b));
    assert!(tree.remove_node(a).is_none());
    // Its shape stays under its id.
    assert_eq!(tree.get_size(a), Some(USize::new(3, 4)));

    // Removing the root leaves the tree without one, and its children stay.
    assert!(tree.remove_node(root_id).is_some());
    assert!(tree.get_root_node().is_none());
    assert_eq!(tree.get_parent(b), Some(&root_id));
}

#[test]
fn tree_attributes() {
    let mut ids = Uuids::new();
    let mut tree = Tree::new();
    let root = RootWidget::new(&mut ids, USize::new(8, 4));
    let root_id = root.id();
    tree.insert_root_node(root_id, Node::RootWidget(root), USize::new(8, 4));
    let (a, node_a) = cursor_node(&mut ids);
    tree.insert_node(a, node_a, root_id, IRect::new((1, 2), (4, 6)));

    assert_eq!(tree.set_pos(a, IPos::new(-5, 7)), Some(IPos::new(1, 2)));
    assert_eq!(tree.get_pos(a), Some(IPos::new(-5, 7)));
    assert_eq!(tree.get_size(a), Some(USize::new(3, 4)));
    assert_eq!(tree.get_shape(a).unwrap().max(), IPos::new(-2, 11));
    assert_eq!(tree.set_size(a, USize::new(10, 1)), Some(USize::new(3, 4)));
    assert_eq!(tree.get_size(a), Some(USize::new(10, 1)));
    assert_eq!(tree.get_pos(a), Some(IPos::new(-5, 7)));
    assert!(tree.set_pos(99, IPos::new(0, 0)).is_none());
    assert!(tree.set_size(99, USize::new(1, 1)).is_none());
    assert!(tree.get_shape(99).is_none());

    let before = tree.set_shape(a, IRect::new((0, 0), (2, 2))).unwrap();
    assert_eq!(before.min(), IPos::new(-5, 7));
    *tree.get_shape_mut(a).unwrap() = IRect::new((9, 9), (8, 8));
    assert_eq!(tree.get_pos(a), Some(IPos::new(8, 8)));
    assert_eq!(tree.get_size(a), Some(USize::new(1, 1)));
    assert!(tree.get_shape_mut(99).is_none());

    assert_eq!(tree.set_zindex(a, 5), Some(0));
    assert_eq!(tree.get_zindex(a), Some(&5));
    *tree.get_zindex_mut(a).unwrap() += 1;
    assert_eq!(tree.get_zindex(a), Some(&6));
    assert!(tree.set_zindex(99, 1).is_none());
    assert_eq!(tree.get_zindex(99), Some(&1));

    assert_eq!(tree.set_visible(a, false), Some(true));
    assert_eq!(tree.get_visible(a), Some(&false));
    *tree.get_visible_mut(a).unwrap() = true;
    assert_eq!(tree.get_visible(a), Some(&true));

    assert_eq!(tree.set_enabled(a, false), Some(true));
    assert_eq!(tree.get_enabled(a), Some(&false));
    *tree.get_enabled_mut(a).unwrap() = true;
    assert_eq!(tree.get_enabled(a), Some(&true));
    assert!(tree.get_enabled_mut(99).is_none());
}

#[test]
fn window_options_are_built() {
    assert_eq!(DEFAULT_BREAK_AT, " ^I!@*-+;:,./?");
    let options = WindowGlobalOptions::default();
    assert_eq!(options.break_at(), " ^I!@*-+;:,./?");
    let mut builder = WindowGlobalOptions::builder();
    let mut options = builder.break_at(" ,").build();
    assert_eq!(options.break_at(), " ,");
    options.set_break_at("-");
    assert_eq!(options.break_at(), "-");
    let mut builder = WindowGlobalOptionsBuilder::default();
    builder.break_at("a").break_at("b");
    assert_eq!(builder.build().break_at(), "b");
}
