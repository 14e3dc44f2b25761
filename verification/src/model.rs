//! What an application implements, and what it may ask of the event loop.

use vstd::prelude::*;
use crate::area::Area;
use crate::message::Message;
use crate::widget::Widget;

verus! {

/// The sending half of the message channel.
#[verifier::external_type_specification]
#[verifier::external_body]
#[verifier::reject_recursive_types(T)]
pub struct ExSender<T>(std::sync::mpsc::Sender<T>);

/// A unit of background work. It is started once, on a thread of its own,
/// with a handle of its own to the message channel, and ends when it
/// returns.
pub trait Subroutine: Send {
    fn run(self: Box<Self>, sender: std::sync::mpsc::Sender<Message>);
}

/// An effect that the model asks the event loop for.
pub enum Command {
    /// Puts the cursor on the given column and row.
    SetCursor(u16, u16),
    /// Shuts the program down at once.
    Quit,
    /// Starts a unit of background work, which may send messages from
    /// then on.
    Subroutine(Box<dyn Subroutine>),
}

/// A tree of widgets, held by its root.
pub struct Scene {
    pub root: Box<dyn Widget>,
}

/// The state of an application.
pub trait Model {
    /// The commands to apply once, before the first frame is drawn.
    fn init(&self) -> Vec<Command>;

    /// Takes one message in; the only place where the state changes.
    fn update(&mut self, message: Message) -> Vec<Command>;

    /// The state as a tree of widgets.
    fn view(&self) -> Scene;
}

/// Something that changes with the messages it is given.
pub trait Reactive {
    fn update(&mut self, message: Message) -> Vec<Command>;
}

} // verus!
