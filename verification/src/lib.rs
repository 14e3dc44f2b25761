//! An Elm-style reactive terminal user interface toolkit: messages and
//! commands, rectangular areas, composable widgets with a deterministic
//! layout engine, and the decision logic of the event loop.

pub mod ansi;
pub mod area;
pub mod event;
pub mod layout;
pub mod message;
pub mod model;
pub mod program;
pub mod view;
pub mod widget;

pub use area::Area;
pub use event::{Event, MouseEvent};
pub use message::Message;
pub use model::{Command, Model, Reactive, Subroutine};
pub use program::Program;
pub use view::View;
