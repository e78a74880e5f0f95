//! A node of a tree.

use vstd::prelude::*;

verus! {

/// The number that tells one node from another.
pub type InodeId = usize;

/// A node: its id, what it holds, the id of its parent, and the ids of its
/// children from the lowest to the highest.
#[derive(Debug)]
pub struct Inode<T> {
    id: InodeId,
    value: T,
    parent: Option<InodeId>,
    children: Vec<InodeId>,
}

impl<T> Inode<T> {
    /// The node's id, as a value of the model.
    pub closed spec fn spec_id(&self) -> InodeId {
        self.id
    }

    /// What the node holds, as a value of the model.
    pub closed spec fn spec_value(&self) -> T {
        self.value
    }

    /// The node's parent, as a value of the model.
    pub closed spec fn spec_parent(&self) -> Option<InodeId> {
        self.parent
    }

    /// The node's children, as a value of the model.
    pub closed spec fn spec_children(&self) -> Seq<InodeId> {
        self.children@
    }

    /// A node without a parent and without children.
    pub fn new(id: InodeId, value: T) -> (node: Self)
        ensures
            node.spec_id() == id,
            node.spec_value() == value,
            node.spec_parent() is None,
            node.spec_children().len() == 0,
    {
        Inode { id, value, parent: None, children: Vec::new() }
    }

    /// The node's id.
    pub fn id(&self) -> (id: InodeId)
        ensures
            id == self.spec_id(),
    {
        self.id
    }

    /// What the node holds.
    pub fn value(&self) -> (value: &T)
        ensures
            *value == self.spec_value(),
    {
        &self.value
    }

    /// The node's parent.
    pub fn parent(&self) -> (parent: Option<InodeId>)
        ensures
            parent == self.spec_parent(),
    {
        self.parent
    }

    /// The node's children, and nothing where it has none.
    pub fn children(&self) -> (children: Option<&Vec<InodeId>>)
        ensures
            match children {
                Some(ids) => ids@ == self.spec_children() && ids@.len() > 0,
                None => self.spec_children().len() == 0,
            },
    {
        if self.children.len() == 0 {
            None
        } else {
            Some(&self.children)
        }
    }

    /// Sets the node's parent. Nothing else changes.
    pub(crate) fn set_parent(&mut self, parent: Option<InodeId>)
        ensures
            final(self).spec_parent() == parent,
            final(self).spec_id() == old(self).spec_id(),
            final(self).spec_value() == old(self).spec_value(),
            final(self).spec_children() == old(self).spec_children(),
    {
        self.parent = parent;
    }

    /// Adds a child after the others. Nothing else changes.
    pub(crate) fn push(&mut self, child: InodeId)
        ensures
            final(self).spec_children() == old(self).spec_children().push(child),
            final(self).spec_id() == old(self).spec_id(),
            final(self).spec_value() == old(self).spec_value(),
            final(self).spec_parent() == old(self).spec_parent(),
    {
        self.children.push(child);
    }

    /// Takes the child at an index out, and gives its id back. Nothing
    /// where the node has no child at the index.
    pub(crate) fn remove(&mut self, index: usize) -> (child: Option<InodeId>)
        ensures
            final(self).spec_id() == old(self).spec_id(),
            final(self).spec_value() == old(self).spec_value(),
            final(self).spec_parent() == old(self).spec_parent(),
            child == (if index < old(self).spec_children().len() {
                Some(old(self).spec_children()[index as int])
            } else {
                None
            }),
            final(self).spec_children() == (if index < old(self).spec_children().len() {
                old(self).spec_children().remove(index as int)
            } else {
                old(self).spec_children()
            }),
            index >= old(self).spec_children().len() ==> *final(self) == *old(self),
    {
        if index < self.children.len() {
            Some(self.children.remove(index))
        } else {
            None
        }
    }
}

} // verus!
