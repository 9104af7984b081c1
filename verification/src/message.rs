//! What the terminal reports to the application, reduced to what the
//! application decides on.

use vstd::prelude::*;

verus! {

/// The key of a key press.
#[derive(Clone, Copy, Debug, PartialEq, Eq, Structural, Hash)]
pub enum Key {
    /// A character key.
    Char(char),
    /// Any other key.
    Other,
}

/// One message from the event loop.
#[derive(Clone, Debug, PartialEq, Eq)]
pub enum Message {
    /// The application has started.
    Init,
    /// The application should end.
    Quit,
    /// Reading an event failed.
    Error,
    /// The view was closed.
    Closed,
    /// One tick of the clock.
    Tick,
    /// The screen is due for a redraw.
    Render,
    FocusGained,
    FocusLost,
    /// Text was pasted.
    Paste(String),
    /// A key was pressed.
    Key(Key),
    /// The mouse was used at this column and row.
    Mouse(u16, u16),
    /// The terminal now has this many columns and rows.
    Resize(u16, u16),
}

} // verus!
