//! The input events the UI core dispatches through a widget tree.

use vstd::prelude::*;

use crate::input::ButtonState;
use crate::input::MouseButton;

verus! {

/// A user interface event. The caller owns the event source and
/// translates device events into these variants; the current cursor
/// position travels beside the event as a separate dispatch argument.
#[derive(Clone, Copy, PartialEq, Eq, Structural, Debug)]
pub enum Event {
    /// A mouse button changed state.
    MouseInput {
        /// Whether the button went down or up.
        state: ButtonState,
        /// Which button changed.
        button: MouseButton,
    },
}

} // verus!
