//! The tree.
//!
//! The nodes of the tree are held in one place, under their ids, and a node
//! names its parent and its children by their ids. One node may be the
//! root. A node that is taken from its parent stays where the nodes are
//! held, with all that is below it, but it is no part of the tree any more:
//! the tree is what hangs on the root.

use crate::ui::tree::internal::inode::{Inode, InodeId};
use std::collections::{BTreeMap, VecDeque};
use vstd::prelude::*;

verus! {

/// The order in which the children of one node are visited.
#[derive(Debug, Clone, Copy, PartialEq, Eq, Structural)]
pub enum ItreeIterateOrder {
    /// From the lowest child to the highest.
    Ascent,
    /// From the highest child to the lowest.
    Descent,
}

/// The nodes are linked as a forest: each is held under its own id and
/// has a depth; the parent of a node is held, is less deep, and has the
/// node among its
/// children; each child of a node is held and has the node as its parent,
/// and no child stands twice; and the root is held and has no parent.
pub open spec fn forest_wf<T>(
    nodes: Map<InodeId, Inode<T>>,
    root: Option<InodeId>,
    depths: Map<InodeId, nat>,
) -> bool {
    &&& forall|k: InodeId| #[trigger]
        nodes.contains_key(k) ==> nodes[k].spec_id() == k && depths.contains_key(k)
    &&& forall|k: InodeId|
        #[trigger] nodes.contains_key(k) && nodes[k].spec_parent() is Some ==> nodes.contains_key(
            nodes[k].spec_parent()->0,
        ) && depths[nodes[k].spec_parent()->0] < depths[k]
            && nodes[nodes[k].spec_parent()->0].spec_children().contains(k)
    &&& forall|k: InodeId, i: int|
        nodes.contains_key(k) && 0 <= i < nodes[k].spec_children().len() ==> nodes.contains_key(
            #[trigger] nodes[k].spec_children()[i],
        ) && nodes[nodes[k].spec_children()[i]].spec_parent() == Some(k)
    &&& forall|k: InodeId, i: int, j: int|
        nodes.contains_key(k) && 0 <= i < j < nodes[k].spec_children().len()
            ==> #[trigger] nodes[k].spec_children()[i] != #[trigger] nodes[k].spec_children()[j]
    &&& root is Some ==> nodes.contains_key(root->0) && nodes[root->0].spec_parent() is None
}

/// The node at the top of the chain of parents of a node.
pub open spec fn top_of<T>(
    nodes: Map<InodeId, Inode<T>>,
    depths: Map<InodeId, nat>,
    id: InodeId,
) -> InodeId
    decreases depths[id],
{
    match nodes[id].spec_parent() {
        Some(p) => if depths[p] < depths[id] {
            top_of(nodes, depths, p)
        } else {
            id
        },
        None => id,
    }
}

/// A node belongs to the tree when it is held and the chain of its parents
/// ends at the root.
pub open spec fn in_tree<T>(
    nodes: Map<InodeId, Inode<T>>,
    root: Option<InodeId>,
    depths: Map<InodeId, nat>,
    id: InodeId,
) -> bool {
    nodes.contains_key(id) && root == Some(top_of(nodes, depths, id))
}

/// The top of a node's chain of parents stays what it is when nodes are
/// added and the nodes there were keep their parents and their depths.
pub proof fn lemma_top_stays<T>(
    before: Map<InodeId, Inode<T>>,
    after: Map<InodeId, Inode<T>>,
    root: Option<InodeId>,
    before_depths: Map<InodeId, nat>,
    after_depths: Map<InodeId, nat>,
    id: InodeId,
)
    requires
        forest_wf(before, root, before_depths),
        before.contains_key(id),
        forall|k: InodeId| #[trigger]
            before.contains_key(k) ==> after.contains_key(k) && after[k].spec_parent()
                == before[k].spec_parent() && after_depths[k] == before_depths[k],
    ensures
        top_of(after, after_depths, id) == top_of(before, before_depths, id),
    decreases before_depths[id],
{
    match before[id].spec_parent() {
        Some(p) => {
            assert(before.contains_key(p));
            lemma_top_stays(before, after, root, before_depths, after_depths, p);
        },
        None => {},
    }
}

/// The tree.
pub struct Itree<T> {
    nodes: BTreeMap<InodeId, Inode<T>>,
    root: Option<InodeId>,
    depth: Ghost<Map<InodeId, nat>>,
}

impl<T> Itree<T> {
    /// The nodes that are held, under their ids.
    pub closed spec fn nodes(&self) -> Map<InodeId, Inode<T>> {
        self.nodes@
    }

    /// The id of the root, if there is one.
    pub closed spec fn spec_root(&self) -> Option<InodeId> {
        self.root
    }

    /// How deep each node stands below the top of its chain of parents, or
    /// deeper.
    pub closed spec fn depths(&self) -> Map<InodeId, nat> {
        self.depth@
    }

    /// The tree is well formed: its nodes are linked as a forest.
    pub open spec fn wf(&self) -> bool {
        forest_wf(self.nodes(), self.spec_root(), self.depths())
    }

    /// Whether a node belongs to the tree.
    pub open spec fn holds(&self, id: InodeId) -> bool {
        in_tree(self.nodes(), self.spec_root(), self.depths(), id)
    }

    /// A tree without a node.
    pub fn new() -> (tree: Self)
        ensures
            tree.wf(),
            tree.nodes() == Map::<InodeId, Inode<T>>::empty(),
            tree.spec_root() is None,
    {
        Itree { nodes: BTreeMap::new(), root: None, depth: Ghost(Map::empty()) }
    }

    /// Whether the tree has no root.
    pub fn is_empty(&self) -> (empty: bool)
        ensures
            empty == self.spec_root() is None,
    {
        self.root.is_none()
    }

    /// The id of the root, if there is one.
    pub fn root(&self) -> (root: Option<InodeId>)
        ensures
            root == self.spec_root(),
    {
        self.root
    }

    /// Makes a node the root, or leaves the tree without one, and gives
    /// back the root there was. The new root must be held and have no
    /// parent. The nodes stay as they are.
    pub fn set_root(&mut self, root: Option<InodeId>) -> (before: Option<InodeId>)
        requires
            old(self).wf(),
            root is Some ==> old(self).nodes().contains_key(root->0) && old(self).nodes()[root->0].spec_parent() is None,
        ensures
            final(self).wf(),
            before == old(self).spec_root(),
            final(self).spec_root() == root,
            final(self).nodes() == old(self).nodes(),
            final(self).depths() == old(self).depths(),
    {
        let old_root = self.root;
        self.root = root;
        old_root
    }

    /// Whether a node belongs to the tree: it is held, and the chain of its
    /// parents ends at the root.
    pub fn contains(&self, id: InodeId) -> (found: bool)
        requires
            self.wf(),
        ensures
            found == self.holds(id),
    {
        let mut current: InodeId = id;
        let mut found = false;
        loop
            invariant_except_break
                self.nodes().contains_key(id) ==> self.nodes().contains_key(current) && top_of(
                    self.nodes(),
                    self.depths(),
                    id,
                ) == top_of(self.nodes(), self.depths(), current),
                !self.nodes().contains_key(id) ==> current == id,
            invariant
                self.wf(),
            ensures
                found == self.holds(id),
            decreases self.depths()[current],
        {
            match self.nodes.get(&current) {
                Some(node) => match node.parent() {
                    Some(parent) => {
                        current = parent;
                    },
                    None => {
                        found = self.root == Some(current);
                        break ;
                    },
                },
                None => {
                    found = false;
                    break ;
                },
            }
        }
        found
    }

    /// The node under an id, if it belongs to the tree.
    pub fn get(&self, id: InodeId) -> (node: Option<&Inode<T>>)
        requires
            self.wf(),
        ensures
            node == (if self.holds(id) {
                Some(&self.nodes()[id])
            } else {
                None
            }),
    {
        if self.contains(id) {
            self.nodes.get(&id)
        } else {
            None
        }
    }

    /// Puts a new node into the tree: as a child of `parent`, after the
    /// children it has, or as the root where no parent is given. The
    /// parent must belong to the tree; without a parent the tree must have
    /// no root. The node must be new: no node is held under its id, and it
    /// has neither parent nor children. Gives back the id of the node.
    pub fn insert(&mut self, parent: Option<InodeId>, child: Inode<T>) -> (inserted: Option<InodeId>)
        requires
            old(self).wf(),
            !old(self).nodes().contains_key(child.spec_id()),
            child.spec_parent() is None,
            child.spec_children().len() == 0,
            match parent {
                Some(p) => old(self).holds(p),
                None => old(self).spec_root() is None,
            },
        ensures
            final(self).wf(),
            final(self).holds(child.spec_id()),
            forall|k: InodeId| old(self).holds(k) ==> final(self).holds(k),
            inserted == Some(child.spec_id()),
            final(self).spec_root() == (match parent {
                Some(p) => old(self).spec_root(),
                None => Some(child.spec_id()),
            }),
            final(self).nodes().dom() == old(self).nodes().dom().insert(child.spec_id()),
            final(self).nodes()[child.spec_id()].spec_id() == child.spec_id(),
            final(self).nodes()[child.spec_id()].spec_value() == child.spec_value(),
            final(self).nodes()[child.spec_id()].spec_parent() == parent,
            final(self).nodes()[child.spec_id()].spec_children().len() == 0,
            forall|k: InodeId|
                old(self).nodes().contains_key(k) && Some(k) != parent ==> final(self).nodes()[k]
                    == old(self).nodes()[k],
            parent is Some ==> {
                let p = parent->0;
                &&& final(self).nodes()[p].spec_id() == p
                &&& final(self).nodes()[p].spec_value() == old(self).nodes()[p].spec_value()
                &&& final(self).nodes()[p].spec_parent() == old(self).nodes()[p].spec_parent()
                &&& final(self).nodes()[p].spec_children() == old(self).nodes()[p].spec_children().push(child.spec_id())
            },
    {
        let id = child.id();
        let ghost before = self.nodes();
        let ghost before_depths = self.depths();
        match parent {
            Some(p) => {
                let mut child = child;
                child.set_parent(Some(p));
                match self.nodes.remove(&p) {
                    Some(mut node) => {
                        node.push(id);
                        self.nodes.insert(p, node);
                    },
                    None => {},
                }
                self.nodes.insert(id, child);
                self.depth = Ghost(before_depths.insert(id, before_depths[p] + 1));
                proof {
                    let after = self.nodes();
                    let depths = self.depths();
                    assert(after.dom() =~= before.dom().insert(id));
                    assert(after[p].spec_children() == before[p].spec_children().push(id));
                    assert forall|k: InodeId| #[trigger]
                        after.contains_key(k) && after[k].spec_parent() is Some implies after.contains_key(
                        after[k].spec_parent()->0,
                    ) && depths[after[k].spec_parent()->0] < depths[k]
                        && after[after[k].spec_parent()->0].spec_children().contains(k) by {
                        if k == id {
                            assert(after[p].spec_children()[before[p].spec_children().len() as int]
                                == id);
                        } else {
                            let q = before[k].spec_parent()->0;
                            assert(before.contains_key(k));
                            assert(before[q].spec_children().contains(k));
                            let i = choose|i: int|
                                0 <= i < before[q].spec_children().len()
                                    && before[q].spec_children()[i] == k;
                            assert(after[q].spec_children()[i] == k);
                        }
                    }
                    assert forall|k: InodeId, i: int|
                        after.contains_key(k) && 0 <= i < after[k].spec_children().len() implies after.contains_key(
                        #[trigger] after[k].spec_children()[i],
                    ) && after[after[k].spec_children()[i]].spec_parent() == Some(k) by {
                        if k == p && i < before[p].spec_children().len() {
                            assert(after[k].spec_children()[i] == before[k].spec_children()[i]);
                        } else if k != p && k != id {
                            assert(after[k].spec_children()[i] == before[k].spec_children()[i]);
                        }
                    }
                    assert forall|k: InodeId, i: int, j: int|
                        after.contains_key(k) && 0 <= i < j < after[k].spec_children().len() implies #[trigger] after[k].spec_children()[i]
                        != #[trigger] after[k].spec_children()[j] by {
                        if k == p {
                            assert(after[k].spec_children()[i] == before[k].spec_children()[i]);
                            if j < before[p].spec_children().len() {
                                assert(after[k].spec_children()[j] == before[k].spec_children()[j]);
                            }
                        } else if k != id {
                            assert(after[k].spec_children()[i] == before[k].spec_children()[i]);
                            assert(after[k].spec_children()[j] == before[k].spec_children()[j]);
                        }
                    }
                }
            },
            None => {
                self.nodes.insert(id, child);
                self.root = Some(id);
                self.depth = Ghost(before_depths.insert(id, 0));
                proof {
                    let after = self.nodes();
                    assert(after.dom() =~= before.dom().insert(id));
                    assert forall|k: InodeId| #[trigger]
                        after.contains_key(k) && after[k].spec_parent() is Some implies after.contains_key(
                        after[k].spec_parent()->0,
                    ) && self.depths()[after[k].spec_parent()->0] < self.depths()[k]
                        && after[after[k].spec_parent()->0].spec_children().contains(k) by {
                        assert(before.contains_key(k));
                    }
                    assert forall|k: InodeId, i: int|
                        after.contains_key(k) && 0 <= i < after[k].spec_children().len() implies after.contains_key(
                        #[trigger] after[k].spec_children()[i],
                    ) && after[after[k].spec_children()[i]].spec_parent() == Some(k) by {
                        assert(before.contains_key(k));
                        assert(before.contains_key(before[k].spec_children()[i]));
                    }
                }
            },
        }
        proof {
            assert forall|k: InodeId| old(self).holds(k) implies self.holds(k) by {
                lemma_top_stays(
                    before,
                    self.nodes(),
                    old(self).spec_root(),
                    before_depths,
                    self.depths(),
                    k,
                );
            }
            match parent {
                Some(p) => {
                    lemma_top_stays(
                        before,
                        self.nodes(),
                        old(self).spec_root(),
                        before_depths,
                        self.depths(),
                        p,
                    );
                    assert(top_of(self.nodes(), self.depths(), id) == top_of(
                        self.nodes(),
                        self.depths(),
                        p,
                    ));
                },
                None => {},
            }
        }
        Some(id)
    }

    /// Takes the child at an index from a node, and gives its id back. The
    /// child has no parent any more and, with all that is below it, is no
    /// part of the tree. Nothing happens where no node is held under
    /// `parent`, or where it has no child at the index.
    pub fn remove(&mut self, parent: InodeId, index: usize) -> (removed: Option<InodeId>)
        requires
            old(self).wf(),
        ensures
            final(self).wf(),
            final(self).spec_root() == old(self).spec_root(),
            final(self).depths() == old(self).depths(),
            final(self).nodes().dom() == old(self).nodes().dom(),
            removed == (if old(self).nodes().contains_key(parent) && index < old(self).nodes()[parent].spec_children().len() {
                Some(old(self).nodes()[parent].spec_children()[index as int])
            } else {
                None
            }),
            removed is None ==> final(self).nodes() == old(self).nodes(),
            removed is Some ==> {
                let c = removed->0;
                &&& forall|k: InodeId|
                    old(self).nodes().contains_key(k) && k != parent && k != c ==> final(self).nodes()[k] == old(self).nodes()[k]
                &&& final(self).nodes()[parent].spec_id() == parent
                &&& final(self).nodes()[parent].spec_value() == old(self).nodes()[parent].spec_value()
                &&& final(self).nodes()[parent].spec_parent() == old(self).nodes()[parent].spec_parent()
                &&& final(self).nodes()[parent].spec_children() == old(self).nodes()[parent].spec_children().remove(index as int)
                &&& final(self).nodes()[c].spec_id() == c
                &&& final(self).nodes()[c].spec_value() == old(self).nodes()[c].spec_value()
                &&& final(self).nodes()[c].spec_parent() is None
                &&& final(self).nodes()[c].spec_children() == old(self).nodes()[c].spec_children()
            },
    {
        let ghost before = self.nodes();
        let mut node = match self.nodes.remove(&parent) {
            Some(node) => node,
            None => {
                assert(self.nodes() =~= before);
                return None;
            },
        };
        let removed = node.remove(index);
        self.nodes.insert(parent, node);
        match removed {
            None => {
                proof {
                    lemma_same_map(self.nodes(), before, parent);
                }
                None
            },
            Some(c) => {
                assert(before[parent].spec_children()[index as int] == c);
                assert(before.contains_key(c) && before[c].spec_parent() == Some(parent));
                assert(c != parent) by {
                    assert(self.depths()[parent] < self.depths()[c]);
                }
                match self.nodes.remove(&c) {
                    Some(mut child) => {
                        child.set_parent(None);
                        self.nodes.insert(c, child);
                    },
                    None => {},
                }
                proof {
                    let after = self.nodes();
                    let kids = before[parent].spec_children();
                    assert(after.dom() =~= before.dom());
                    assert(after[parent].spec_children() == kids.remove(index as int));
                    assert forall|k: InodeId| #[trigger]
                        after.contains_key(k) && after[k].spec_parent() is Some implies after.contains_key(
                        after[k].spec_parent()->0,
                    ) && self.depths()[after[k].spec_parent()->0] < self.depths()[k]
                        && after[after[k].spec_parent()->0].spec_children().contains(k) by {
                        let q = before[k].spec_parent()->0;
                        assert(before.contains_key(k));
                        assert(k != c);
                        assert(before[q].spec_children().contains(k));
                        let i = choose|i: int|
                            0 <= i < before[q].spec_children().len() && before[q].spec_children()[i]
                                == k;
                        if q == parent {
                            assert(i != index);
                            if i < index {
                                assert(after[q].spec_children()[i] == k);
                            } else {
                                assert(after[q].spec_children()[i - 1] == k);
                            }
                        } else {
                            assert(q != c ==> after[q] == before[q]);
                            assert(after[q].spec_children()[i] == k);
                        }
                    }
                    assert forall|k: InodeId, i: int|
                        after.contains_key(k) && 0 <= i < after[k].spec_children().len() implies after.contains_key(
                        #[trigger] after[k].spec_children()[i],
                    ) && after[after[k].spec_children()[i]].spec_parent() == Some(k) by {
                        if k == parent {
                            let j = if i < index {
                                i
                            } else {
                                i + 1
                            };
                            assert(after[k].spec_children()[i] == kids[j]);
                            assert(kids[j] != kids[index as int]);
                            assert(before.contains_key(kids[j]));
                        } else {
                            assert(after[k].spec_children()[i] == before[k].spec_children()[i]);
                            assert(before.contains_key(before[k].spec_children()[i]));
                            assert(before[before[k].spec_children()[i]].spec_parent() == Some(k));
                        }
                    }
                    assert forall|k: InodeId, i: int, j: int|
                        after.contains_key(k) && 0 <= i < j < after[k].spec_children().len() implies #[trigger] after[k].spec_children()[i]
                        != #[trigger] after[k].spec_children()[j] by {
                        if k == parent {
                            let i2 = if i < index {
                                i
                            } else {
                                i + 1
                            };
                            let j2 = if j < index {
                                j
                            } else {
                                j + 1
                            };
                            assert(after[k].spec_children()[i] == kids[i2]);
                            assert(after[k].spec_children()[j] == kids[j2]);
                        } else {
                            assert(after[k].spec_children()[i] == before[k].spec_children()[i]);
                            assert(after[k].spec_children()[j] == before[k].spec_children()[j]);
                        }
                    }
                }
                Some(c)
            },
        }
    }

    /// Visits the tree from the root, level by level, the children of a
    /// node from the lowest to the highest.
    pub fn iter(&self) -> (iterator: ItreeIterator)
        ensures
            iterator.spec_order() == ItreeIterateOrder::Ascent,
            iterator.spec_queue() == (match self.spec_root() {
                Some(root) => seq![root],
                None => Seq::<InodeId>::empty(),
            }),
    {
        ItreeIterator::new(self.root, ItreeIterateOrder::Ascent)
    }

    /// Visits the tree from the root, level by level, the children of a
    /// node in the given order.
    pub fn ordered_iter(&self, order: ItreeIterateOrder) -> (iterator: ItreeIterator)
        ensures
            iterator.spec_order() == order,
            iterator.spec_queue() == (match self.spec_root() {
                Some(root) => seq![root],
                None => Seq::<InodeId>::empty(),
            }),
    {
        ItreeIterator::new(self.root, order)
    }
}

/// Visits the nodes of a tree level by level: the nodes it has yet to hand
/// out wait in a queue, and each node that is handed out puts its children
/// at the end of the queue.
#[derive(Debug)]
pub struct ItreeIterator {
    order: ItreeIterateOrder,
    queue: VecDeque<InodeId>,
}

/// What a node that is handed out puts at the end of the queue: its
/// children, in the order of the visit, and nothing where no node is held
/// under the id.
pub open spec fn visit_next<T>(
    nodes: Map<InodeId, Inode<T>>,
    order: ItreeIterateOrder,
    id: InodeId,
) -> Seq<InodeId> {
    if !nodes.contains_key(id) {
        Seq::empty()
    } else {
        match order {
            ItreeIterateOrder::Ascent => nodes[id].spec_children(),
            ItreeIterateOrder::Descent => nodes[id].spec_children().reverse(),
        }
    }
}

impl ItreeIterator {
    /// The order of the visit.
    pub closed spec fn spec_order(&self) -> ItreeIterateOrder {
        self.order
    }

    /// The nodes that wait to be handed out.
    pub closed spec fn spec_queue(&self) -> Seq<InodeId> {
        self.queue@
    }

    /// A visit that starts at a node, or at none.
    pub fn new(start: Option<InodeId>, order: ItreeIterateOrder) -> (iterator: Self)
        ensures
            iterator.spec_order() == order,
            iterator.spec_queue() == (match start {
                Some(node) => seq![node],
                None => Seq::<InodeId>::empty(),
            }),
    {
        let mut queue: VecDeque<InodeId> = VecDeque::new();
        match start {
            Some(start_node) => {
                queue.push_back(start_node);
                assert(queue@ =~= seq![start_node]);
            },
            None => {},
        }
        ItreeIterator { order, queue }
    }

    /// Hands out the node at the front of the queue, and puts its children
    /// at the end. Nothing where the queue is empty.
    pub fn next<T>(&mut self, tree: &Itree<T>) -> (node: Option<InodeId>)
        ensures
            final(self).spec_order() == old(self).spec_order(),
            old(self).spec_queue().len() == 0 ==> node is None && final(self).spec_queue() == old(self).spec_queue(),
            old(self).spec_queue().len() > 0 ==> node == Some(old(self).spec_queue()[0]) && final(self).spec_queue() == old(self).spec_queue().drop_first() + visit_next(
                tree.nodes(),
                old(self).spec_order(),
                old(self).spec_queue()[0],
            ),
    {
        let id: InodeId = match self.queue.pop_front() {
            Some(id) => id,
            None => {
                return None;
            },
        };
        let ghost rest = self.queue@;
        assert(rest =~= old(self).spec_queue().drop_first());
        match tree.nodes.get(&id) {
            Some(node) => match node.children() {
                Some(children) => {
                    let n = children.len();
                    let mut i: usize = 0;
                    while i < n
                        invariant
                            n == children@.len(),
                            i <= n,
                            children@ == tree.nodes()[id].spec_children(),
                            tree.nodes().contains_key(id),
                            self.order == old(self).order,
                            self.queue@ == rest + visit_next(
                                tree.nodes(),
                                self.order,
                                id,
                            ).take(i as int),
                        decreases n - i,
                    {
                        let child: InodeId = match self.order {
                            ItreeIterateOrder::Ascent => children[i],
                            ItreeIterateOrder::Descent => children[n - 1 - i],
                        };
                        self.queue.push_back(child);
                        proof {
                            let all = visit_next(tree.nodes(), self.order, id);
                            assert(all[i as int] == child);
                            assert(all.take(i + 1) =~= all.take(i as int).push(child));
                            assert(self.queue@ =~= rest + all.take(i + 1));
                        }
                        i = i + 1;
                    }
                    proof {
                        let all = visit_next(tree.nodes(), self.order, id);
                        assert(all.take(n as int) =~= all);
                    }
                },
                None => {
                    assert(self.queue@ =~= rest + visit_next(tree.nodes(), self.order, id));
                },
            },
            None => {
                assert(self.queue@ =~= rest + visit_next(tree.nodes(), self.order, id));
            },
        }
        Some(id)
    }
}

/// A map that was given back the value it had under a key is the map it
/// was.
proof fn lemma_same_map<T>(after: Map<InodeId, Inode<T>>, before: Map<InodeId, Inode<T>>, key: InodeId)
    requires
        before.contains_key(key),
        after.dom() =~= before.dom(),
        forall|k: InodeId| before.contains_key(k) && k != key ==> after[k] == before[k],
        after[key] == before[key],
    ensures
        after == before,
{
    assert(after =~= before);
}


} // verus!
