//! What the presentation layer tells the engine, and what the engine asks of
//! it in return.

use vstd::prelude::*;

verus! {

/// Messages of the filter row. There are none: the text of each column's
/// filter arrives as a [`LogReaderMessage`], and no value of this type can be
/// made.
#[derive(Debug)]
pub enum FilterMessage {
    /// Holds a value of a type that has none.
    Never(core::convert::Infallible),
}

impl Clone for FilterMessage {
    fn clone(&self) -> (copy: Self)
        ensures
            copy == *self,
    {
        match self {
            FilterMessage::Never(never) => FilterMessage::Never(*never),
        }
    }
}

/// A key of the keyboard, as far as the engine tells keys apart.
#[derive(Debug, Clone, Copy, PartialEq, Eq, Structural)]
pub enum Key {
    ArrowDown,
    ArrowUp,
    PageDown,
    PageUp,
    Enter,
    Escape,
    F1,
    F3,
    /// A key that types the given character.
    Character(char),
    /// Any other key.
    Other,
}

/// An event of the keyboard, the mouse or the window, in plain values.
#[derive(Debug, Clone, Copy, PartialEq, Eq, Structural)]
pub enum Event {
    KeyPressed { key: Key, shift: bool },
    KeyReleased { key: Key },
    /// The wheel was turned by so many lines; a positive count is towards the
    /// start of the log.
    WheelScrolled { lines: i64 },
    /// The pointer is over the given row of the viewport, counted from the
    /// topmost row shown.
    CursorMoved { row: u64 },
    /// The window now has room for so many rows.
    Resized { rows_visible: u32 },
    /// Any other event.
    Other,
}

/// A message to the engine.
#[derive(Debug, Clone)]
pub enum LogReaderMessage {
    /// The slider was moved to the given value.
    ScrollChanged(i64),
    Event(Event),
    WindowClosed,
    TableEntered,
    TableLeft,
    SearchInputChanged(String),
    /// The text editor of the detail view asks to perform an action; `edit`
    /// says whether the action would change the text.
    TextEditorEdit { edit: bool },
    IDInput(String),
    DateInput(String),
    ComputerNameInput(String),
    ProcessIDInput(String),
    ProcessUserInput(String),
    ModuleNameInput(String),
    MessageIDInput(String),
    LogLevelInput(String),
    FacilityInput(String),
    LogMessageInput(String),
}

/// What the presentation layer is to do once a message has been handled.
#[derive(Debug, Clone, Copy, PartialEq, Eq, Structural)]
pub enum Task {
    /// Nothing.
    Idle,
    /// Give the search bar the keyboard focus.
    FocusSearchBar,
    /// Let the text editor of the detail view perform the action that the
    /// message carried.
    PerformEditorAction,
}

} // verus!
