//! A box that can be checked, with a label beside it.

use vstd::prelude::*;

use crate::graphics::Color;
use crate::graphics::Rectangle;

verus! {

/// The drawing capability a renderer must offer to display a
/// [`Checkbox`]: the box itself; the label is drawn through the text
/// capability.
pub trait Renderer {
    /// Draws the box given its resolved bounds, the label bounds beside
    /// it, whether it is checked, and whether the cursor hovers the
    /// whole control.
    fn draw_checkbox(
        &mut self,
        bounds: Rectangle<u32>,
        label_bounds: Rectangle<u32>,
        is_checked: bool,
        is_hovered: bool,
    );
}

/// A toggle control: a 28-pixel box with a label beside it. Clicking
/// anywhere on the control emits the message built from the opposite of
/// the current checked state.
pub struct Checkbox<M> {
    /// Whether the box currently shows a check mark.
    pub is_checked: bool,
    /// The message a toggle emits, built at construction from the
    /// opposite of the current checked state.
    pub on_toggle: M,
    /// The label displayed beside the box.
    pub label: String,
    /// The color of the label.
    pub label_color: Color,
}

impl<M> Checkbox<M> {
    /// Builds a checkbox with the given state and label. `f` maps the
    /// toggled state — the opposite of `is_checked` — to the message a
    /// click emits.
    pub fn new<F: Fn(bool) -> M>(is_checked: bool, label: &str, f: F) -> (c: Checkbox<M>)
        requires
            call_requires(f, (!is_checked,)),
        ensures
            c.is_checked == is_checked,
            c.label@ == label@,
            c.label_color == (Color { r: 255, g: 255, b: 255, a: 255 }),
            call_ensures(f, (!is_checked,), c.on_toggle),
    {
        let on_toggle = f(!is_checked);
        Checkbox { is_checked, on_toggle, label: label.to_owned(), label_color: Color::white() }
    }

    /// Sets the color of the label.
    pub fn label_color(self, color: Color) -> (c: Checkbox<M>)
        ensures
            c == (Checkbox { label_color: color, ..self }),
    {
        Checkbox { label_color: color, ..self }
    }
}

} // verus!
