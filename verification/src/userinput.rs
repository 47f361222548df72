//! What the input source reports: keys, mouse events, and what it could not
//! read.
use crate::pubsub::TopicId;
use crate::pubsub::typed_topic;
use vstd::prelude::*;

verus! {

/// A key.
#[derive(Debug, Clone, Copy, PartialEq, Eq, Hash, Structural)]
pub enum Key {
    Backspace,
    Left,
    Right,
    Up,
    Down,
    Home,
    End,
    PageUp,
    PageDown,
    BackTab,
    Delete,
    Insert,
    /// A function key, by its number.
    F(u8),
    /// A character as typed.
    Char(char),
    /// A character typed with Alt held.
    Alt(char),
    /// A character typed with Ctrl held.
    Ctrl(char),
    Null,
    Esc,
}

/// A mouse button, or a turn of the wheel.
#[derive(Debug, Clone, Copy, PartialEq, Eq, Hash, Structural)]
pub enum MouseButton {
    Left,
    Right,
    Middle,
    WheelUp,
    WheelDown,
}

/// What the mouse did, with the column and row where it did it.
#[derive(Debug, Clone, Copy, PartialEq, Eq, Hash, Structural)]
pub enum MouseEvent {
    Press(MouseButton, u16, u16),
    Release(u16, u16),
    Hold(u16, u16),
}

/// An event of the input source.
#[derive(Debug, PartialEq, Eq, Hash)]
pub enum Event {
    Key(Key),
    Mouse(MouseEvent),
    /// Bytes that the input source could not make sense of.
    Unsupported(Vec<u8>),
}

impl Clone for Event {
    fn clone(&self) -> (r: Self)
        ensures
            match (r, *self) {
                (Event::Key(a), Event::Key(b)) => a == b,
                (Event::Mouse(a), Event::Mouse(b)) => a == b,
                (Event::Unsupported(a), Event::Unsupported(b)) => a@ == b@,
                _ => false,
            },
    {
        match self {
            Event::Key(k) => Event::Key(*k),
            Event::Mouse(m) => Event::Mouse(*m),
            Event::Unsupported(bytes) => {
                let copy = bytes.clone();
                assert(copy@ =~= bytes@);
                Event::Unsupported(copy)
            },
        }
    }
}

/// The topic on which input events are published.
pub fn topic() -> (t: TopicId<Event>)
    ensures
        t@ == "input"@,
{
    typed_topic("input")
}

} // verus!
