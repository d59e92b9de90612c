//! A radio button, selecting one option out of a group.

use vstd::prelude::*;

use crate::graphics::Rectangle;

verus! {

/// The drawing capability a renderer must offer to display a [`Radio`]:
/// the circle itself; the label is drawn through the text capability.
pub trait Renderer {
    /// Draws the circle given its resolved bounds, the label bounds
    /// beside it, whether this option is selected, and whether the
    /// cursor hovers the whole control.
    fn draw_radio(
        &mut self,
        bounds: Rectangle<u32>,
        label_bounds: Rectangle<u32>,
        is_selected: bool,
        is_hovered: bool,
    );
}

/// One selectable option: a 28-pixel circle with a label beside it.
/// Clicking anywhere on the control emits its message.
pub struct Radio<M> {
    /// Whether this option is the selected one.
    pub is_selected: bool,
    /// The message a click emits.
    pub on_click: M,
    /// The label displayed beside the circle.
    pub label: String,
}

impl<M> Radio<M> {
    /// Builds a radio button with the given selection state and label.
    pub fn new(is_selected: bool, label: &str, on_click: M) -> (r: Radio<M>)
        ensures
            r.is_selected == is_selected,
            r.label@ == label@,
            r.on_click == on_click,
    {
        Radio { is_selected, on_click, label: label.to_owned() }
    }
}

} // verus!
