//! The rendering and navigation core of a terminal text viewer.
//!
//! The library decides *what* is sent to the terminal and *where* the caret
//! goes; it performs no input or output itself. Terminal operations are
//! recorded, in order, in a [`Terminal`] transcript that a driver replays
//! against the real device, and input arrives as plain values.

pub mod buffer;
pub mod editor;
pub mod event;
pub mod terminal;
pub mod text;
pub mod view;

pub use buffer::{Buffer, LoadError};
pub use editor::{Editor, EditorState};
pub use event::{Event, KeyCode, KeyEvent, KeyEventKind, KeyModifiers};
pub use terminal::{Command, Op, Position, Size, Terminal};
pub use view::{View, ViewState};
