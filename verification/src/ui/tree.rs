//! The widget tree.
//!
//! The tree holds the widgets of the screen under their ids. One of them is
//! the root; every other one has a parent, and a parent knows its children.
//! Beside the nodes the tree keeps, for each id, the widget's shape relative
//! to its parent, its z-index among its siblings, and whether it is shown
//! and whether it takes input.
//!
//! Removing a node takes it from its parent and leaves its children where
//! they are: they keep the removed id as their parent until they are removed
//! or inserted again. The shape and the other attributes of a removed node
//! stay under its id.

use crate::cart::{IPos, IRect, USize};
use crate::ui::widget::cursor::Cursor;
use crate::ui::widget::root::RootWidget;
use std::collections::{BTreeMap, BTreeSet};
use vstd::prelude::*;

pub mod internal;
pub mod opt;

verus! {

/// The number that tells one node of the tree from another.
pub type NodeId = usize;

/// The link from a parent to one of its children.
#[derive(Debug, Clone, Copy, PartialEq, Eq, Structural)]
pub struct Edge {
    pub from: NodeId,
    pub to: NodeId,
}

impl Edge {
    /// The link from `from` to `to`.
    pub fn new(from: NodeId, to: NodeId) -> (edge: Self)
        ensures
            edge.from == from,
            edge.to == to,
    {
        Edge { from, to }
    }
}

/// A widget in the tree.
#[derive(Debug)]
pub enum Node {
    RootWidget(RootWidget),
    Cursor(Cursor),
}

/// Calls `BTreeMap::get_mut`: a reference to the value under a key, through
/// which the value can be changed, and nothing where the map lacks the key.
#[verifier::external_body]
fn map_get_mut<'a, V>(map: &'a mut BTreeMap<NodeId, V>, id: NodeId) -> (value: Option<&'a mut V>)
    ensures
        match value {
            Some(v) => old(map)@.contains_key(id) && *v == old(map)@[id] && final(map)@ == old(
                map,
            )@.insert(id, *final(v)),
            None => !old(map)@.contains_key(id) && final(map)@ == old(map)@,
        },
{
    map.get_mut(&id)
}

/// The widget tree.
#[derive(Debug)]
pub struct Tree {
    nodes: BTreeMap<NodeId, Node>,
    root_id: Option<NodeId>,
    children_ids: BTreeMap<NodeId, BTreeSet<NodeId>>,
    parent_ids: BTreeMap<NodeId, NodeId>,
    shapes: BTreeMap<NodeId, IRect>,
    zindexes: BTreeMap<NodeId, usize>,
    visibles: BTreeMap<NodeId, bool>,
    enables: BTreeMap<NodeId, bool>,
}

/// The parents and the children say the same, the root is the one node
/// without a parent, and an id without a node has neither.
pub open spec fn links_agree(
    nodes: Set<NodeId>,
    root: Option<NodeId>,
    parents: Map<NodeId, NodeId>,
    children: Map<NodeId, Set<NodeId>>,
) -> bool {
    &&& forall|c: NodeId| #[trigger]
        parents.contains_key(c) ==> children.contains_key(parents[c]) && children[parents[c]].contains(
            c,
        )
    &&& forall|p: NodeId, c: NodeId|
        children.contains_key(p) && #[trigger] children[p].contains(c) ==> parents.contains_key(c)
            && parents[c] == p
    &&& forall|id: NodeId| #[trigger]
        nodes.contains(id) ==> (parents.contains_key(id) <==> root != Some(id))
    &&& forall|id: NodeId|
        !(#[trigger] nodes.contains(id)) ==> !parents.contains_key(id) && root != Some(id)
}

impl Tree {
    /// The nodes under their ids.
    pub closed spec fn nodes(&self) -> Map<NodeId, Node> {
        self.nodes@
    }

    /// The id of the root, if there is one.
    pub closed spec fn root(&self) -> Option<NodeId> {
        self.root_id
    }

    /// The parent of each node that has one.
    pub closed spec fn parents(&self) -> Map<NodeId, NodeId> {
        self.parent_ids@
    }

    /// The children of each node that has had any.
    pub closed spec fn children(&self) -> Map<NodeId, Set<NodeId>> {
        Map::new(
            |p: NodeId| self.children_ids@.contains_key(p),
            |p: NodeId| self.children_ids@[p]@,
        )
    }

    /// The shape of each node, relative to its parent.
    pub closed spec fn shapes(&self) -> Map<NodeId, IRect> {
        self.shapes@
    }

    /// The z-index of each node.
    pub closed spec fn zindexes(&self) -> Map<NodeId, usize> {
        self.zindexes@
    }

    /// Whether each node is shown.
    pub closed spec fn visibles(&self) -> Map<NodeId, bool> {
        self.visibles@
    }

    /// Whether each node takes input.
    pub closed spec fn enables(&self) -> Map<NodeId, bool> {
        self.enables@
    }

    /// The tree is well formed: its links agree.
    pub open spec fn wf(&self) -> bool {
        links_agree(self.nodes().dom(), self.root(), self.parents(), self.children())
    }

    /// The tree's attributes are those of another tree.
    pub open spec fn same_attributes(&self, other: &Tree) -> bool {
        &&& self.shapes() == other.shapes()
        &&& self.zindexes() == other.zindexes()
        &&& self.visibles() == other.visibles()
        &&& self.enables() == other.enables()
    }

    /// The tree's nodes and links are those of another tree.
    pub open spec fn same_links(&self, other: &Tree) -> bool {
        &&& self.nodes() == other.nodes()
        &&& self.root() == other.root()
        &&& self.parents() == other.parents()
        &&& self.children() == other.children()
    }

    /// A tree without a node.
    pub fn new() -> (tree: Tree)
        ensures
            tree.wf(),
            tree.nodes() == Map::<NodeId, Node>::empty(),
            tree.root() is None,
            tree.parents() == Map::<NodeId, NodeId>::empty(),
            tree.children() == Map::<NodeId, Set<NodeId>>::empty(),
            tree.shapes() == Map::<NodeId, IRect>::empty(),
            tree.zindexes() == Map::<NodeId, usize>::empty(),
            tree.visibles() == Map::<NodeId, bool>::empty(),
            tree.enables() == Map::<NodeId, bool>::empty(),
    {
        let tree = Tree {
            nodes: BTreeMap::new(),
            root_id: None,
            children_ids: BTreeMap::new(),
            parent_ids: BTreeMap::new(),
            shapes: BTreeMap::new(),
            zindexes: BTreeMap::new(),
            visibles: BTreeMap::new(),
            enables: BTreeMap::new(),
        };
        assert(tree.children() =~= Map::<NodeId, Set<NodeId>>::empty());
        tree
    }

    /// The node under an id, if there is one.
    pub fn get_node(&self, id: NodeId) -> (node: Option<&Node>)
        ensures
            node == (if self.nodes().contains_key(id) {
                Some(&self.nodes()[id])
            } else {
                None
            }),
    {
        self.nodes.get(&id)
    }

    /// The id of the root, if there is one.
    pub fn get_root_node(&self) -> (root: Option<NodeId>)
        ensures
            root == self.root(),
    {
        self.root_id
    }

    /// Makes a node the root, with a shape of the given size at the origin,
    /// z-index 0, shown and enabled. The tree must have no root yet, and
    /// the id no parent. Gives back the node that was under the id.
    pub fn insert_root_node(&mut self, id: NodeId, node: Node, size: USize) -> (before: Option<Node>)
        requires
            old(self).wf(),
            old(self).root() is None,
            !old(self).parents().contains_key(id),
            size.width <= isize::MAX,
            size.height <= isize::MAX,
        ensures
            final(self).wf(),
            final(self).root() == Some(id),
            final(self).nodes() == old(self).nodes().insert(id, node),
            final(self).parents() == old(self).parents(),
            final(self).children() == old(self).children(),
            before == (if old(self).nodes().contains_key(id) {
                Some(old(self).nodes()[id])
            } else {
                None
            }),
            final(self).shapes().dom() == old(self).shapes().dom().insert(id),
            forall|other: NodeId|
                other != id && old(self).shapes().contains_key(other) ==> final(self).shapes()[other]
                    == old(self).shapes()[other],
            final(self).shapes()[id].spec_min() == (IPos { x: 0, y: 0 }),
            final(self).shapes()[id].spec_width() == size.width,
            final(self).shapes()[id].spec_height() == size.height,
            final(self).zindexes() == old(self).zindexes().insert(id, 0),
            final(self).visibles() == old(self).visibles().insert(id, true),
            final(self).enables() == old(self).enables().insert(id, true),
    {
        self.root_id = Some(id);
        let before = self.nodes.insert(id, node);
        let shape = IRect::from_pos_size(IPos { x: 0, y: 0 }, size);
        self.shapes.insert(id, shape);
        self.zindexes.insert(id, 0);
        self.visibles.insert(id, true);
        self.enables.insert(id, true);
        assert(self.children() =~= old(self).children());
        assert(self.shapes().dom() =~= old(self).shapes().dom().insert(id));
        before
    }

    /// Puts a node under an id as a child of `parent_id`, with the given
    /// shape, z-index 0, shown and enabled. A node that was under the id
    /// is given back, and its link to the parent it had is taken away. The
    /// id must not be the root's.
    pub fn insert_node(&mut self, id: NodeId, node: Node, parent_id: NodeId, shape: IRect) -> (before:
        Option<Node>)
        requires
            old(self).wf(),
            old(self).root() != Some(id),
        ensures
            final(self).wf(),
            final(self).root() == old(self).root(),
            final(self).nodes() == old(self).nodes().insert(id, node),
            final(self).parents() == old(self).parents().insert(id, parent_id),
            final(self).children().contains_key(parent_id),
            final(self).children()[parent_id].contains(id),
            before == (if old(self).nodes().contains_key(id) {
                Some(old(self).nodes()[id])
            } else {
                None
            }),
            final(self).shapes() == old(self).shapes().insert(id, shape),
            final(self).zindexes() == old(self).zindexes().insert(id, 0),
            final(self).visibles() == old(self).visibles().insert(id, true),
            final(self).enables() == old(self).enables().insert(id, true),
    {
        let ghost before_children = self.children();
        let ghost before_parents = self.parents();
        match self.parent_ids.get(&id) {
            Some(old_parent) => {
                let old_parent: NodeId = *old_parent;
                assert(before_children.contains_key(old_parent));
                match self.children_ids.remove(&old_parent) {
                    Some(mut siblings) => {
                        siblings.remove(&id);
                        self.children_ids.insert(old_parent, siblings);
                    },
                    None => {},
                }
            },
            None => {},
        }
        let ghost detached = self.children();
        assert(forall|p: NodeId|
            detached.contains_key(p) <==> before_children.contains_key(p));
        assert(forall|p: NodeId, c: NodeId|
            detached.contains_key(p) ==> (#[trigger] detached[p].contains(c) <==> before_children[p].contains(
                c,
            ) && c != id));
        let mut siblings: BTreeSet<NodeId> = match self.children_ids.remove(&parent_id) {
            Some(siblings) => siblings,
            None => BTreeSet::new(),
        };
        siblings.insert(id);
        self.children_ids.insert(parent_id, siblings);
        self.parent_ids.insert(id, parent_id);
        self.shapes.insert(id, shape);
        self.zindexes.insert(id, 0);
        self.visibles.insert(id, true);
        self.enables.insert(id, true);
        let before = self.nodes.insert(id, node);
        proof {
            let after = self.children();
            assert(forall|p: NodeId|
                after.contains_key(p) <==> detached.contains_key(p) || p == parent_id);
            assert(forall|p: NodeId, c: NodeId|
                after.contains_key(p) ==> (#[trigger] after[p].contains(c) <==> (
                detached.contains_key(p) && detached[p].contains(c)) || (p == parent_id && c == id)));
            assert forall|c: NodeId| #[trigger] self.parents().contains_key(c) implies after.contains_key(
                self.parents()[c],
            ) && after[self.parents()[c]].contains(c) by {
                if c != id {
                    assert(before_parents.contains_key(c));
                    assert(before_children[before_parents[c]].contains(c));
                }
            }
        }
        before
    }

    /// Takes the node under an id out of the tree, and gives it back. The
    /// node's link to its parent goes with it; its children stay. Removing
    /// the root leaves the tree without a root.
    pub fn remove_node(&mut self, id: NodeId) -> (removed: Option<Node>)
        requires
            old(self).wf(),
        ensures
            final(self).wf(),
            final(self).same_attributes(old(self)),
            final(self).nodes() == old(self).nodes().remove(id),
            final(self).parents() == old(self).parents().remove(id),
            removed == (if old(self).nodes().contains_key(id) {
                Some(old(self).nodes()[id])
            } else {
                None
            }),
            final(self).root() == (if old(self).root() == Some(id) {
                None
            } else {
                old(self).root()
            }),
            forall|p: NodeId|
                final(self).children().contains_key(p) <==> old(self).children().contains_key(p),
            forall|p: NodeId, c: NodeId|
                old(self).children().contains_key(p) ==> (#[trigger] final(self).children()[p].contains(
                    c,
                ) <==> old(self).children()[p].contains(c) && c != id),
    {
        let ghost before_children = self.children();
        let ghost before_parents = self.parents();
        match self.nodes.remove(&id) {
            Some(node) => {
                match self.parent_ids.remove(&id) {
                    Some(parent_id) => {
                        assert(before_parents.contains_key(id));
                        assert(before_children.contains_key(parent_id));
                        match self.children_ids.remove(&parent_id) {
                            Some(mut siblings) => {
                                siblings.remove(&id);
                                self.children_ids.insert(parent_id, siblings);
                            },
                            None => {},
                        }
                    },
                    None => {
                        self.root_id = None;
                    },
                }
                proof {
                    let after = self.children();
                    assert(forall|p: NodeId|
                        after.contains_key(p) <==> before_children.contains_key(p));
                    assert forall|p: NodeId, c: NodeId|
                        before_children.contains_key(p) implies (#[trigger] after[p].contains(c)
                        <==> before_children[p].contains(c) && c != id) by {
                        if before_children[p].contains(c) && c == id {
                            assert(before_parents.contains_key(id) && before_parents[id] == p);
                        }
                    }
                    assert forall|c: NodeId| #[trigger]
                        self.parents().contains_key(c) implies after.contains_key(self.parents()[c])
                        && after[self.parents()[c]].contains(c) by {
                        assert(before_parents.contains_key(c));
                        assert(before_children[before_parents[c]].contains(c));
                    }
                }
                Some(node)
            },
            None => {
                assert(!old(self).nodes().dom().contains(id));
                assert(self.parents() =~= before_parents.remove(id));
                assert(self.nodes() =~= old(self).nodes().remove(id));
                assert forall|p: NodeId, c: NodeId|
                    before_children.contains_key(p) implies (#[trigger] self.children()[p].contains(c)
                    <==> before_children[p].contains(c) && c != id) by {
                    if before_children[p].contains(c) && c == id {
                        assert(before_parents.contains_key(id));
                    }
                }
                None
            },
        }
    }

    /// The link from `from` to `to`, if `to` is a child of `from`.
    pub fn get_edge(&self, from: NodeId, to: NodeId) -> (edge: Option<Edge>)
        ensures
            edge == (if self.parents().contains_key(to) && self.parents()[to] == from {
                Some(Edge { from, to })
            } else {
                None
            }),
    {
        match self.parent_ids.get(&to) {
            Some(parent) => {
                if *parent == from {
                    Some(Edge { from, to })
                } else {
                    None
                }
            },
            None => None,
        }
    }

    /// The children of a node, if it has had any.
    pub fn get_children(&self, parent_id: NodeId) -> (children: Option<&BTreeSet<NodeId>>)
        ensures
            match children {
                Some(set) => self.children().contains_key(parent_id) && set@
                    == self.children()[parent_id],
                None => !self.children().contains_key(parent_id),
            },
    {
        self.children_ids.get(&parent_id)
    }

    /// The parent of a node, if it has one.
    pub fn get_parent(&self, child_id: NodeId) -> (parent: Option<&NodeId>)
        ensures
            parent == (if self.parents().contains_key(child_id) {
                Some(&self.parents()[child_id])
            } else {
                None
            }),
    {
        self.parent_ids.get(&child_id)
    }

    /// The shape of a node, if it has one.
    pub fn get_shape(&self, id: NodeId) -> (shape: Option<&IRect>)
        ensures
            shape == (if self.shapes().contains_key(id) {
                Some(&self.shapes()[id])
            } else {
                None
            }),
    {
        self.shapes.get(&id)
    }

    /// The shape of a node, to be changed in place.
    pub fn get_shape_mut(&mut self, id: NodeId) -> (shape: Option<&mut IRect>)
        ensures
            final(self).same_links(old(self)),
            final(self).zindexes() == old(self).zindexes(),
            final(self).visibles() == old(self).visibles(),
            final(self).enables() == old(self).enables(),
            match shape {
                Some(s) => old(self).shapes().contains_key(id) && *s == old(self).shapes()[id]
                    && final(self).shapes() == old(self).shapes().insert(id, *final(s)),
                None => !old(self).shapes().contains_key(id) && final(self).shapes() == old(
                    self,
                ).shapes(),
            },
    {
        map_get_mut(&mut self.shapes, id)
    }

    /// Sets the shape of a node, and gives back the one it had. Nodes and
    /// links stay.
    pub fn set_shape(&mut self, id: NodeId, shape: IRect) -> (before: Option<IRect>)
        ensures
            final(self).same_links(old(self)),
            final(self).shapes() == old(self).shapes().insert(id, shape),
            final(self).zindexes() == old(self).zindexes(),
            final(self).visibles() == old(self).visibles(),
            final(self).enables() == old(self).enables(),
            before == (if old(self).shapes().contains_key(id) {
                Some(old(self).shapes()[id])
            } else {
                None
            }),
    {
        self.shapes.insert(id, shape)
    }

    /// The corner of a node's shape with the smaller coordinates.
    pub fn get_pos(&self, id: NodeId) -> (pos: Option<IPos>)
        ensures
            pos == (if self.shapes().contains_key(id) {
                Some(self.shapes()[id].spec_min())
            } else {
                None
            }),
    {
        match self.shapes.get(&id) {
            Some(shape) => Some(shape.min()),
            None => None,
        }
    }

    /// Moves a node's shape to a position, keeping its size, and gives back
    /// the position it had. The moved shape must not reach beyond the
    /// largest coordinate. A node without a shape stays without one.
    pub fn set_pos(&mut self, id: NodeId, pos: IPos) -> (before: Option<IPos>)
        requires
            old(self).shapes().contains_key(id) ==> pos.x + old(self).shapes()[id].spec_width()
                <= isize::MAX && pos.y + old(self).shapes()[id].spec_height() <= isize::MAX,
        ensures
            final(self).same_links(old(self)),
            final(self).zindexes() == old(self).zindexes(),
            final(self).visibles() == old(self).visibles(),
            final(self).enables() == old(self).enables(),
            before == (if old(self).shapes().contains_key(id) {
                Some(old(self).shapes()[id].spec_min())
            } else {
                None
            }),
            final(self).shapes().dom() == old(self).shapes().dom(),
            forall|other: NodeId|
                other != id && old(self).shapes().contains_key(other) ==> final(self).shapes()[other]
                    == old(self).shapes()[other],
            old(self).shapes().contains_key(id) ==> final(self).shapes()[id].spec_min() == pos
                && final(self).shapes()[id].spec_width() == old(self).shapes()[id].spec_width()
                && final(self).shapes()[id].spec_height() == old(self).shapes()[id].spec_height(),
    {
        match self.shapes.get(&id) {
            Some(shape) => {
                let old_pos = shape.min();
                let size = shape.size();
                self.shapes.insert(id, IRect::from_pos_size(pos, size));
                assert(self.shapes().dom() =~= old(self).shapes().dom());
                Some(old_pos)
            },
            None => None,
        }
    }

    /// The size of a node's shape.
    pub fn get_size(&self, id: NodeId) -> (size: Option<USize>)
        ensures
            match size {
                Some(s) => self.shapes().contains_key(id) && s.width
                    == self.shapes()[id].spec_width() && s.height
                    == self.shapes()[id].spec_height(),
                None => !self.shapes().contains_key(id),
            },
    {
        match self.shapes.get(&id) {
            Some(shape) => Some(shape.size()),
            None => None,
        }
    }

    /// Gives a node's shape a size, keeping its position, and gives back
    /// the size it had. The resized shape must not reach beyond the largest
    /// coordinate. A node without a shape stays without one.
    pub fn set_size(&mut self, id: NodeId, sz: USize) -> (before: Option<USize>)
        requires
            old(self).shapes().contains_key(id) ==> old(self).shapes()[id].spec_min().x + sz.width
                <= isize::MAX && old(self).shapes()[id].spec_min().y + sz.height <= isize::MAX,
        ensures
            final(self).same_links(old(self)),
            final(self).zindexes() == old(self).zindexes(),
            final(self).visibles() == old(self).visibles(),
            final(self).enables() == old(self).enables(),
            match before {
                Some(s) => old(self).shapes().contains_key(id) && s.width == old(
                    self,
                ).shapes()[id].spec_width() && s.height == old(self).shapes()[id].spec_height(),
                None => !old(self).shapes().contains_key(id),
            },
            final(self).shapes().dom() == old(self).shapes().dom(),
            forall|other: NodeId|
                other != id && old(self).shapes().contains_key(other) ==> final(self).shapes()[other]
                    == old(self).shapes()[other],
            old(self).shapes().contains_key(id) ==> final(self).shapes()[id].spec_min() == old(
                self,
            ).shapes()[id].spec_min() && final(self).shapes()[id].spec_width() == sz.width
                && final(self).shapes()[id].spec_height() == sz.height,
    {
        match self.shapes.get(&id) {
            Some(shape) => {
                let old_size = shape.size();
                let pos = shape.min();
                self.shapes.insert(id, IRect::from_pos_size(pos, sz));
                assert(self.shapes().dom() =~= old(self).shapes().dom());
                Some(old_size)
            },
            None => None,
        }
    }

    /// The z-index of a node, if it has one.
    pub fn get_zindex(&self, id: NodeId) -> (zindex: Option<&usize>)
        ensures
            zindex == (if self.zindexes().contains_key(id) {
                Some(&self.zindexes()[id])
            } else {
                None
            }),
    {
        self.zindexes.get(&id)
    }

    /// The z-index of a node, to be changed in place.
    pub fn get_zindex_mut(&mut self, id: NodeId) -> (zindex: Option<&mut usize>)
        ensures
            final(self).same_links(old(self)),
            final(self).shapes() == old(self).shapes(),
            final(self).visibles() == old(self).visibles(),
            final(self).enables() == old(self).enables(),
            match zindex {
                Some(z) => old(self).zindexes().contains_key(id) && *z == old(self).zindexes()[id]
                    && final(self).zindexes() == old(self).zindexes().insert(id, *final(z)),
                None => !old(self).zindexes().contains_key(id) && final(self).zindexes() == old(
                    self,
                ).zindexes(),
            },
    {
        map_get_mut(&mut self.zindexes, id)
    }

    /// Sets the z-index of a node, and gives back the one it had.
    pub fn set_zindex(&mut self, id: NodeId, zindex: usize) -> (before: Option<usize>)
        ensures
            final(self).same_links(old(self)),
            final(self).zindexes() == old(self).zindexes().insert(id, zindex),
            final(self).shapes() == old(self).shapes(),
            final(self).visibles() == old(self).visibles(),
            final(self).enables() == old(self).enables(),
            before == (if old(self).zindexes().contains_key(id) {
                Some(old(self).zindexes()[id])
            } else {
                None
            }),
    {
        self.zindexes.insert(id, zindex)
    }

    /// Whether a node is shown, if that is set.
    pub fn get_visible(&self, id: NodeId) -> (visible: Option<&bool>)
        ensures
            visible == (if self.visibles().contains_key(id) {
                Some(&self.visibles()[id])
            } else {
                None
            }),
    {
        self.visibles.get(&id)
    }

    /// Whether a node is shown, to be changed in place.
    pub fn get_visible_mut(&mut self, id: NodeId) -> (visible: Option<&mut bool>)
        ensures
            final(self).same_links(old(self)),
            final(self).shapes() == old(self).shapes(),
            final(self).zindexes() == old(self).zindexes(),
            final(self).enables() == old(self).enables(),
            match visible {
                Some(v) => old(self).visibles().contains_key(id) && *v == old(self).visibles()[id]
                    && final(self).visibles() == old(self).visibles().insert(id, *final(v)),
                None => !old(self).visibles().contains_key(id) && final(self).visibles() == old(
                    self,
                ).visibles(),
            },
    {
        map_get_mut(&mut self.visibles, id)
    }

    /// Shows or hides a node, and gives back what was set.
    pub fn set_visible(&mut self, id: NodeId, visible: bool) -> (before: Option<bool>)
        ensures
            final(self).same_links(old(self)),
            final(self).visibles() == old(self).visibles().insert(id, visible),
            final(self).shapes() == old(self).shapes(),
            final(self).zindexes() == old(self).zindexes(),
            final(self).enables() == old(self).enables(),
            before == (if old(self).visibles().contains_key(id) {
                Some(old(self).visibles()[id])
            } else {
                None
            }),
    {
        self.visibles.insert(id, visible)
    }

    /// Whether a node takes input, if that is set.
    pub fn get_enabled(&self, id: NodeId) -> (enabled: Option<&bool>)
        ensures
            enabled == (if self.enables().contains_key(id) {
                Some(&self.enables()[id])
            } else {
                None
            }),
    {
        self.enables.get(&id)
    }

    /// Whether a node takes input, to be changed in place.
    pub fn get_enabled_mut(&mut self, id: NodeId) -> (enabled: Option<&mut bool>)
        ensures
            final(self).same_links(old(self)),
            final(self).shapes() == old(self).shapes(),
            final(self).zindexes() == old(self).zindexes(),
            final(self).visibles() == old(self).visibles(),
            match enabled {
                Some(e) => old(self).enables().contains_key(id) && *e == old(self).enables()[id]
                    && final(self).enables() == old(self).enables().insert(id, *final(e)),
                None => !old(self).enables().contains_key(id) && final(self).enables() == old(
                    self,
                ).enables(),
            },
    {
        map_get_mut(&mut self.enables, id)
    }

    /// Lets a node take input, or not, and gives back what was set.
    pub fn set_enabled(&mut self, id: NodeId, enabled: bool) -> (before: Option<bool>)
        ensures
            final(self).same_links(old(self)),
            final(self).enables() == old(self).enables().insert(id, enabled),
            final(self).shapes() == old(self).shapes(),
            final(self).zindexes() == old(self).zindexes(),
            final(self).visibles() == old(self).visibles(),
            before == (if old(self).enables().contains_key(id) {
                Some(old(self).enables()[id])
            } else {
                None
            }),
    {
        self.enables.insert(id, enabled)
    }
}

} // verus!
