//! Terminal input events as plain data.
//!
//! Pointer events are modelled field by field because layout and routing read
//! them; key events are carried through untouched for the model to inspect.

use vstd::prelude::*;

verus! {

/// A key event of the terminal driver; the library passes it on unread.
#[verifier::external_type_specification]
#[verifier::external_body]
pub struct ExKeyEvent(crossterm::event::KeyEvent);

#[derive(Clone, Copy, Debug, PartialEq, Eq, Structural)]
pub enum MouseButton {
    Left,
    Right,
    Middle,
}

#[derive(Clone, Copy, Debug, PartialEq, Eq, Structural)]
pub enum MouseEventKind {
    Down(MouseButton),
    Up(MouseButton),
    Drag(MouseButton),
    Moved,
    ScrollDown,
    ScrollUp,
    ScrollLeft,
    ScrollRight,
}

/// A pointer event at the cell in column `column`, row `row`.
/// `modifiers` holds the driver's modifier bits (shift, control, alt, ...).
#[derive(Clone, Copy, Debug, PartialEq, Eq, Structural)]
pub struct MouseEvent {
    pub kind: MouseEventKind,
    pub column: u16,
    pub row: u16,
    pub modifiers: u8,
}

/// One event read from the terminal.
pub enum Event {
    FocusGained,
    FocusLost,
    Key(crossterm::event::KeyEvent),
    Mouse(MouseEvent),
    Paste(String),
    Resize(u16, u16),
}

impl Event {
    /// The pointer event inside, if this is one.
    pub open spec fn pointer(self) -> Option<MouseEvent> {
        match self {
            Event::Mouse(event) => Some(event),
            _ => None,
        }
    }

    pub fn as_mouse(&self) -> (found: Option<MouseEvent>)
        ensures
            found == self.pointer(),
    {
        match self {
            Event::Mouse(event) => Some(*event),
            _ => None,
        }
    }
}

} // verus!
