//! Device input values, as the runtime glue hands them to the UI core.

use vstd::prelude::*;

verus! {

/// Whether a button went down or came back up.
#[derive(Clone, Copy, PartialEq, Eq, Structural, Debug)]
pub enum ButtonState {
    /// The button was pressed.
    Pressed,
    /// The button was released.
    Released,
}

/// A button of the mouse.
#[derive(Clone, Copy, PartialEq, Eq, Structural, Debug)]
pub enum MouseButton {
    /// The left button.
    Left,
    /// The right button.
    Right,
    /// The middle (wheel) button.
    Middle,
}

} // verus!
