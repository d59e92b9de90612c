//! A clickable labelled button.
//!
//! The pressed flag must survive between a press event and the matching
//! release, and widget trees are rebuilt every frame, so the persistent
//! state lives in caller-owned storage: a slice of [`State`] values the
//! caller keeps across frames, indexed by a stable identifier each
//! button carries.

use vstd::prelude::*;

use crate::graphics::Rectangle;
use crate::ui::style::Style;

verus! {

/// The drawing capability a renderer must offer to display a [`Button`].
pub trait Renderer {
    /// Draws a button given its resolved bounds, its label, whether it
    /// is currently held down, and whether the cursor hovers it.
    fn draw_button(&mut self, bounds: Rectangle<u32>, label: &str, is_pressed: bool, is_hovered: bool);
}

/// The persistent interaction state of one button: whether the last
/// left-button press landed inside its bounds and has not been released.
#[derive(Clone, Copy, PartialEq, Eq, Structural, Debug)]
pub struct State {
    /// Whether a press inside the bounds is still being held.
    pub is_pressed: bool,
}

impl State {
    /// A button that is not being held.
    pub fn new() -> (s: State)
        ensures
            s == (State { is_pressed: false }),
    {
        State { is_pressed: false }
    }
}

/// A labelled button emitting a message when clicked: when a left-button
/// press and the following release both land inside its resolved bounds.
pub struct Button<M> {
    /// Index of this button's [`State`] in the caller-owned state slice.
    pub state: usize,
    /// The label displayed on the button.
    pub label: String,
    /// Extra layout constraints; the button itself fixes its height and
    /// grows into leftover width.
    pub style: Style,
    /// The message emitted on a completed click, if any.
    pub on_click: Option<M>,
}

impl<M> Button<M> {
    /// Builds a button over the caller-owned state slot `state`.
    pub fn new(state: usize, label: &str) -> (b: Button<M>)
        ensures
            b.state == state,
            b.label@ == label@,
            b.style == Style::initial(),
            b.on_click is None,
    {
        Button { state, label: label.to_owned(), style: Style::new(), on_click: None }
    }

    /// Fixes the button's width.
    pub fn width(self, width: u32) -> (b: Button<M>)
        ensures
            b == (Button { style: (Style { width: Some(width), ..self.style }), ..self }),
    {
        let style = self.style.width(width);
        Button { style, ..self }
    }

    /// Sets the message a completed click emits.
    pub fn on_click(self, msg: M) -> (b: Button<M>)
        ensures
            b == (Button { on_click: Some(msg), ..self }),
    {
        Button { on_click: Some(msg), ..self }
    }
}

} // verus!
