//! A container distributing heterogeneous children horizontally.

use vstd::prelude::*;

use crate::ui::element::Element;
use crate::ui::style::Style;

verus! {

/// A horizontal container. Children are laid out left to right in push
/// order, with `spacing` pixels between consecutive children, and that
/// order is also the traversal order for hashing, drawing and event
/// dispatch.
pub struct Row<M> {
    /// The container's own layout constraints.
    pub style: Style,
    /// Pixels between consecutive children.
    pub spacing: u16,
    /// The children, in push order.
    pub children: Vec<Element<M>>,
}

impl<M> Row<M> {
    /// An empty row without constraints.
    pub fn new() -> (r: Row<M>)
        ensures
            r.style == Style::initial(),
            r.spacing == 0,
            r.children@.len() == 0,
    {
        Row { style: Style::new(), spacing: 0, children: Vec::new() }
    }

    /// Fixes the row's width.
    pub fn width(self, width: u32) -> (r: Row<M>)
        ensures
            r == (Row { style: (Style { width: Some(width), ..self.style }), ..self }),
    {
        let style = self.style.width(width);
        Row { style, ..self }
    }

    /// Fixes the row's height.
    pub fn height(self, height: u32) -> (r: Row<M>)
        ensures
            r == (Row { style: (Style { height: Some(height), ..self.style }), ..self }),
    {
        let style = self.style.height(height);
        Row { style, ..self }
    }

    /// Bounds the row's width when it is not fixed.
    pub fn max_width(self, max_width: u32) -> (r: Row<M>)
        ensures
            r == (Row { style: (Style { max_width: Some(max_width), ..self.style }), ..self }),
    {
        let style = self.style.max_width(max_width);
        Row { style, ..self }
    }

    /// Bounds the row's height when it is not fixed.
    pub fn max_height(self, max_height: u32) -> (r: Row<M>)
        ensures
            r == (Row { style: (Style { max_height: Some(max_height), ..self.style }), ..self }),
    {
        let style = self.style.max_height(max_height);
        Row { style, ..self }
    }

    /// Aligns children to the start of the cross axis.
    pub fn align_left(self) -> (r: Row<M>)
        ensures
            r == (Row { style: (Style { align: crate::ui::style::Align::Start, ..self.style }), ..self }),
    {
        let style = self.style.align_left();
        Row { style, ..self }
    }

    /// Lets the row grow into its parent's leftover main-axis space.
    pub fn fill_width(self) -> (r: Row<M>)
        ensures
            r == (Row { style: (Style { grow: 1, ..self.style }), ..self }),
    {
        let style = self.style.fill_width();
        Row { style, ..self }
    }

    /// Sets the gap between consecutive children.
    pub fn spacing(self, px: u16) -> (r: Row<M>)
        ensures
            r == (Row { spacing: px, ..self }),
    {
        Row { spacing: px, ..self }
    }

    /// Insets the content box on every edge.
    pub fn padding(self, px: u32) -> (r: Row<M>)
        ensures
            r == (Row { style: (Style { padding: px, ..self.style }), ..self }),
    {
        let style = self.style.padding(px);
        Row { style, ..self }
    }

    /// Centers children on the cross axis.
    pub fn center_children(self) -> (r: Row<M>)
        ensures
            r == (Row { style: (Style { align: crate::ui::style::Align::Center, ..self.style }), ..self }),
    {
        let style = self.style.center_children();
        Row { style, ..self }
    }

    /// Appends a child and returns the row, preserving push order as
    /// traversal order.
    pub fn push(self, child: Element<M>) -> (r: Row<M>)
        ensures
            r.style == self.style,
            r.spacing == self.spacing,
            r.children@ == self.children@.push(child),
    {
        let Row { style, spacing, mut children } = self;
        children.push(child);
        Row { style, spacing, children }
    }
}

} // verus!
