//! The cursor widget.

use crate::ui::widget::WidgetId;
use crate::uuid::{id_after, next, Uuids};
use vstd::prelude::*;

verus! {

/// The shape that the terminal draws the cursor in.
#[derive(Debug, Clone, Copy, PartialEq, Eq, Structural)]
pub enum CursorStyle {
    DefaultUserShape,
    BlinkingBlock,
    SteadyBlock,
    BlinkingUnderScore,
    SteadyUnderScore,
    BlinkingBar,
    SteadyBar,
}

/// The cursor: whether it blinks, whether it is hidden, and its shape.
#[derive(Debug, Clone, Copy)]
pub struct Cursor {
    id: WidgetId,
    blinking: bool,
    hidden: bool,
    style: CursorStyle,
}

impl Cursor {
    /// The cursor's id, as a value of the model.
    pub closed spec fn spec_id(&self) -> WidgetId {
        self.id
    }

    /// Whether the cursor blinks, as a value of the model.
    pub closed spec fn spec_blinking(&self) -> bool {
        self.blinking
    }

    /// Whether the cursor is hidden, as a value of the model.
    pub closed spec fn spec_hidden(&self) -> bool {
        self.hidden
    }

    /// The cursor's shape, as a value of the model.
    pub closed spec fn spec_style(&self) -> CursorStyle {
        self.style
    }

    /// A cursor that blinks, is shown, and has the shape the user's terminal
    /// gives it, with the next id of the source.
    pub fn new(ids: &mut Uuids) -> (cursor: Self)
        ensures
            cursor.spec_id() == old(ids).upcoming(),
            final(ids).upcoming() == id_after(old(ids).upcoming()),
            cursor.spec_blinking(),
            !cursor.spec_hidden(),
            cursor.spec_style() == CursorStyle::DefaultUserShape,
    {
        Cursor { id: next(ids), blinking: true, hidden: false, style: CursorStyle::DefaultUserShape }
    }

    /// The cursor's id.
    pub fn id(&self) -> (id: WidgetId)
        ensures
            id == self.spec_id(),
    {
        self.id
    }

    /// Whether the cursor blinks.
    pub fn blinking(&self) -> (blinking: bool)
        ensures
            blinking == self.spec_blinking(),
    {
        self.blinking
    }

    /// Whether the cursor is hidden.
    pub fn hidden(&self) -> (hidden: bool)
        ensures
            hidden == self.spec_hidden(),
    {
        self.hidden
    }

    /// The cursor's shape.
    pub fn style(&self) -> (style: CursorStyle)
        ensures
            style == self.spec_style(),
    {
        self.style
    }
}

} // verus!
