use vstd::prelude::*;
use crate::geometry::Size;

verus! {

/// A decoded key press.
#[derive(Clone, Copy, Debug, PartialEq, Eq, Structural)]
pub enum Key {
    Character(char),
    Enter,
    Backspace,
    Left,
    Right,
    Up,
    Down,
    Escape,
    Tab,
}

/// An input event as the terminal layer decoded it.
#[derive(Clone, Copy, Debug, PartialEq, Eq, Structural)]
pub enum InputEvent {
    Keyboard(Key),
    Resize(Size),
}

/// What the handler of an event asks of the event loop.
#[derive(Clone, Copy, Debug, PartialEq, Eq, Structural)]
pub enum EventPropagation {
    /// Not consumed: another handler may try it.
    Propagate,
    /// Consumed; no re-render is needed.
    Consumed,
    /// Consumed; the screen must be rendered again.
    ConsumedRender,
}

} // verus!
