//! Widgets: composable, renderable nodes that can be addressed by pointer
//! events.

use vstd::prelude::*;
use crate::area::Area;
use crate::event::MouseEvent;
use crate::message::{Message, Payload};

pub mod border;
pub mod flexbox;
pub mod text;

pub use crate::layout::{Direction, Size};
pub use border::Border;
pub use flexbox::Flexbox;
pub use text::Text;

verus! {

/// A node of the user interface.
///
/// A widget reports how much room its content would like, draws itself into
/// whatever area it is given, and turns a pointer event into a message.
///
/// The four functions `width_hint`, `height_hint`, `rendering` and `reply`
/// say what the four methods return. A widget keeps to them only where it
/// says so by `faithful`; one that does not say so promises nothing.
pub trait Widget {
    /// Whether the widget does what the functions below say.
    open spec fn faithful(&self) -> bool {
        false
    }

    /// The columns the content would like.
    open spec fn width_hint(&self) -> u16 {
        0
    }

    /// The rows the content would like.
    open spec fn height_hint(&self) -> u16 {
        0
    }

    /// The text that draws the widget into `area`.
    open spec fn rendering(&self, area: Area) -> Seq<char> {
        Seq::empty()
    }

    /// What the widget answers to `event` when it occupies `area`.
    open spec fn reply(&self, event: MouseEvent, area: Area) -> Payload {
        Payload::Empty
    }

    fn get_width_hint(&self) -> (width: u16)
        ensures
            self.faithful() ==> width == self.width_hint(),
    ;

    fn get_height_hint(&self) -> (height: u16)
        ensures
            self.faithful() ==> height == self.height_hint(),
    ;

    fn render(&self, area: Area) -> (text: String)
        requires
            area.on_screen(),
        ensures
            self.faithful() ==> text@ == self.rendering(area),
    ;

    /// Answers a pointer event; the answer to an event outside `area` is the
    /// empty message.
    fn process_mouse(&self, event: MouseEvent, area: Area) -> (message: Message)
        requires
            area.on_screen(),
        ensures
            self.faithful() ==> message@ == self.reply(event, area),
            self.faithful() && !area.covers(event.column as int, event.row as int) ==> message@
                == Payload::Empty,
    ;
}

/// What a widget does with a pointer event that hit it.
///
/// `reply` says what `handle` returns; a handler keeps to it only where it
/// says so by `faithful`.
pub trait MouseHandler {
    /// Whether the handler does what `reply` says.
    open spec fn faithful(&self) -> bool {
        false
    }

    /// The payload of the message made from `event`.
    open spec fn reply(&self, event: MouseEvent) -> Payload {
        Payload::Empty
    }

    fn handle(&self, event: MouseEvent) -> (message: Message)
        ensures
            self.faithful() ==> message@ == self.reply(event),
    ;
}

} // verus!
