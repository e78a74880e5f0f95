//! The root widget: the container of every other widget, which covers the
//! whole terminal.

use crate::cart::{IPos, UPos, USize};
use crate::ui::widget::WidgetId;
use crate::uuid::{id_after, next, Uuids};
use vstd::prelude::*;

verus! {

/// The root widget. It stands at the terminal's top left corner, below all
/// other widgets, and has no parent.
#[derive(Debug)]
pub struct RootWidget {
    id: WidgetId,
    offset: IPos,
    abs_offset: UPos,
    size: USize,
    visible: bool,
    enabled: bool,
    children: Vec<WidgetId>,
}

impl RootWidget {
    /// The widget's id, as a value of the model.
    pub closed spec fn spec_id(&self) -> WidgetId {
        self.id
    }

    /// The widget's size, as a value of the model.
    pub closed spec fn spec_size(&self) -> USize {
        self.size
    }

    /// Whether the widget is shown, as a value of the model.
    pub closed spec fn spec_visible(&self) -> bool {
        self.visible
    }

    /// Whether the widget takes input, as a value of the model.
    pub closed spec fn spec_enabled(&self) -> bool {
        self.enabled
    }

    /// The widget's offset from its parent, as a value of the model.
    pub closed spec fn spec_offset(&self) -> IPos {
        self.offset
    }

    /// The widget's offset from the terminal's corner, as a value of the
    /// model.
    pub closed spec fn spec_abs_offset(&self) -> UPos {
        self.abs_offset
    }

    /// The ids of the widget's children, as a value of the model.
    pub closed spec fn spec_children(&self) -> Seq<WidgetId> {
        self.children@
    }

    /// A root widget of the given size, shown and enabled, without
    /// children, with the next id of the source.
    pub fn new(ids: &mut Uuids, size: USize) -> (root: Self)
        ensures
            root.spec_id() == old(ids).upcoming(),
            final(ids).upcoming() == id_after(old(ids).upcoming()),
            root.spec_size() == size,
            root.spec_visible(),
            root.spec_enabled(),
            root.spec_offset() == (IPos { x: 0, y: 0 }),
            root.spec_abs_offset() == (UPos { x: 0, y: 0 }),
            root.spec_children().len() == 0,
    {
        RootWidget {
            id: next(ids),
            offset: IPos { x: 0, y: 0 },
            abs_offset: UPos { x: 0, y: 0 },
            size,
            visible: true,
            enabled: true,
            children: Vec::new(),
        }
    }

    /// The widget's id.
    pub fn id(&self) -> (id: WidgetId)
        ensures
            id == self.spec_id(),
    {
        self.id
    }

    /// The widget's offset from its parent: always the origin.
    pub fn offset(&self) -> (offset: IPos)
        ensures
            offset == self.spec_offset(),
    {
        self.offset
    }

    /// The root widget does not move: the call changes nothing.
    pub fn set_offset(&mut self, _offset: IPos)
        ensures
            *final(self) == *old(self),
    {
    }

    /// The widget's offset from the terminal's corner.
    pub fn abs_offset(&self) -> (offset: UPos)
        ensures
            offset == self.spec_abs_offset(),
    {
        self.abs_offset
    }

    /// The widget's size.
    pub fn size(&self) -> (size: USize)
        ensures
            size == self.spec_size(),
    {
        self.size
    }

    /// Sets the widget's size. Nothing else changes.
    pub fn set_size(&mut self, value: USize)
        ensures
            final(self).spec_size() == value,
            final(self).spec_id() == old(self).spec_id(),
            final(self).spec_visible() == old(self).spec_visible(),
            final(self).spec_enabled() == old(self).spec_enabled(),
            final(self).spec_offset() == old(self).spec_offset(),
            final(self).spec_abs_offset() == old(self).spec_abs_offset(),
            final(self).spec_children() == old(self).spec_children(),
    {
        self.size = value;
    }

    /// The root widget lies below every other: its z-index is 0.
    pub fn zindex(&self) -> (zindex: usize)
        ensures
            zindex == 0,
    {
        0
    }

    /// The root widget stays below every other: the call changes nothing.
    pub fn set_zindex(&mut self, _zindex: usize)
        ensures
            *final(self) == *old(self),
    {
    }

    /// Whether the widget is shown.
    pub fn visible(&self) -> (visible: bool)
        ensures
            visible == self.spec_visible(),
    {
        self.visible
    }

    /// Shows or hides the widget. Nothing else changes.
    pub fn set_visible(&mut self, value: bool)
        ensures
            final(self).spec_visible() == value,
            final(self).spec_id() == old(self).spec_id(),
            final(self).spec_size() == old(self).spec_size(),
            final(self).spec_enabled() == old(self).spec_enabled(),
            final(self).spec_offset() == old(self).spec_offset(),
            final(self).spec_abs_offset() == old(self).spec_abs_offset(),
            final(self).spec_children() == old(self).spec_children(),
    {
        self.visible = value;
    }

    /// Whether the widget takes input.
    pub fn enabled(&self) -> (enabled: bool)
        ensures
            enabled == self.spec_enabled(),
    {
        self.enabled
    }

    /// Lets the widget take input, or not. Nothing else changes.
    pub fn set_enabled(&mut self, value: bool)
        ensures
            final(self).spec_enabled() == value,
            final(self).spec_id() == old(self).spec_id(),
            final(self).spec_size() == old(self).spec_size(),
            final(self).spec_visible() == old(self).spec_visible(),
            final(self).spec_offset() == old(self).spec_offset(),
            final(self).spec_abs_offset() == old(self).spec_abs_offset(),
            final(self).spec_children() == old(self).spec_children(),
    {
        self.enabled = value;
    }

    /// The root widget has no parent.
    pub fn parent(&self) -> (parent: Option<WidgetId>)
        ensures
            parent is None,
    {
        None
    }

    /// The ids of the widget's children.
    pub fn children(&self) -> (children: &Vec<WidgetId>)
        ensures
            children@ == self.spec_children(),
    {
        &self.children
    }
}

} // verus!
