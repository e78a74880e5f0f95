//! What the editor does with the events of the terminal.
//!
//! Reading the events and acting on them is the business of the program
//! around this crate; what to do with an event is decided here.

use vstd::prelude::*;

verus! {

/// A key of the keyboard, as far as the editor tells keys apart.
#[derive(Debug, Clone, Copy, PartialEq, Eq, Structural)]
pub enum Key {
    Esc,
    Char(char),
    Other,
}

/// An event of the terminal.
#[derive(Debug, Clone, Copy, PartialEq, Eq, Structural)]
pub enum InputEvent {
    /// A key was pressed. `plain` says that no modifier key was held.
    KeyPress { key: Key, plain: bool },
    /// Anything else: a key released, the mouse, a resize, a paste.
    Other,
}

/// Takes an event in, and says whether the editor goes on: it does, unless
/// the escape key was pressed with no modifier held.
pub fn accept(event: &InputEvent) -> (go_on: bool)
    ensures
        go_on == (*event != (InputEvent::KeyPress { key: Key::Esc, plain: true })),
{
    match event {
        InputEvent::KeyPress { key: Key::Esc, plain: true } => false,
        _ => true,
    }
}

} // verus!
