//! A container distributing heterogeneous children vertically.

use vstd::prelude::*;

use crate::ui::element::Element;
use crate::ui::style::Style;

verus! {

/// A vertical container. Children are laid out top to bottom in push
/// order, with `spacing` pixels between consecutive children, and that
/// order is also the traversal order for hashing, drawing and event
/// dispatch.
pub struct Column<M> {
    /// The container's own layout constraints.
    pub style: Style,
    /// Pixels between consecutive children.
    pub spacing: u16,
    /// The children, in push order.
    pub children: Vec<Element<M>>,
}

impl<M> Column<M> {
    /// An empty column without constraints.
    pub fn new() -> (r: Column<M>)
        ensures
            r.style == Style::initial(),
            r.spacing == 0,
            r.children@.len() == 0,
    {
        Column { style: Style::new(), spacing: 0, children: Vec::new() }
    }

    /// Fixes the column's width.
    pub fn width(self, width: u32) -> (r: Column<M>)
        ensures
            r == (Column { style: (Style { width: Some(width), ..self.style }), ..self }),
    {
        let style = self.style.width(width);
        Column { style, ..self }
    }

    /// Fixes the column's height.
    pub fn height(self, height: u32) -> (r: Column<M>)
        ensures
            r == (Column { style: (Style { height: Some(height), ..self.style }), ..self }),
    {
        let style = self.style.height(height);
        Column { style, ..self }
    }

    /// Bounds the column's width when it is not fixed.
    pub fn max_width(self, max_width: u32) -> (r: Column<M>)
        ensures
            r == (Column { style: (Style { max_width: Some(max_width), ..self.style }), ..self }),
    {
        let style = self.style.max_width(max_width);
        Column { style, ..self }
    }

    /// Bounds the column's height when it is not fixed.
    pub fn max_height(self, max_height: u32) -> (r: Column<M>)
        ensures
            r == (Column { style: (Style { max_height: Some(max_height), ..self.style }), ..self }),
    {
        let style = self.style.max_height(max_height);
        Column { style, ..self }
    }

    /// Aligns children to the start of the cross axis.
    pub fn align_left(self) -> (r: Column<M>)
        ensures
            r == (Column { style: (Style { align: crate::ui::style::Align::Start, ..self.style }), ..self }),
    {
        let style = self.style.align_left();
        Column { style, ..self }
    }

    /// Lets the column grow into its parent's leftover main-axis space.
    pub fn fill_width(self) -> (r: Column<M>)
        ensures
            r == (Column { style: (Style { grow: 1, ..self.style }), ..self }),
    {
        let style = self.style.fill_width();
        Column { style, ..self }
    }

    /// Sets the gap between consecutive children.
    pub fn spacing(self, px: u16) -> (r: Column<M>)
        ensures
            r == (Column { spacing: px, ..self }),
    {
        Column { spacing: px, ..self }
    }

    /// Insets the content box on every edge.
    pub fn padding(self, px: u32) -> (r: Column<M>)
        ensures
            r == (Column { style: (Style { padding: px, ..self.style }), ..self }),
    {
        let style = self.style.padding(px);
        Column { style, ..self }
    }

    /// Centers children on the cross axis.
    pub fn center_children(self) -> (r: Column<M>)
        ensures
            r == (Column { style: (Style { align: crate::ui::style::Align::Center, ..self.style }), ..self }),
    {
        let style = self.style.center_children();
        Column { style, ..self }
    }

    /// Appends a child and returns the column, preserving push order as
    /// traversal order.
    pub fn push(self, child: Element<M>) -> (r: Column<M>)
        ensures
            r.style == self.style,
            r.spacing == self.spacing,
            r.children@ == self.children@.push(child),
    {
        let Column { style, spacing, mut children } = self;
        children.push(child);
        Column { style, spacing, children }
    }
}

} // verus!
