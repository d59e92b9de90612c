//! The pre-resolution layout description of a widget tree.
//!
//! Every widget produces a [`Node`] per frame; a container wraps its
//! children's nodes and injects inter-child spacing as a trailing margin
//! on every child but the last. The solver consumes the root node.

use vstd::prelude::*;

use crate::ui::style::Style;

verus! {

/// A layout description: this node's constraints plus the ordered
/// descriptions of its children.
#[derive(Debug)]
pub struct Node {
    /// The constraints of this node.
    pub style: Style,
    /// Trailing margin on the parent's main axis, in pixels. Parents set
    /// it on their children to realize inter-child spacing; it is zero on
    /// a freshly built node and on the last child of a container.
    pub margin_end: u32,
    /// The ordered layout descriptions of the children.
    pub children: Vec<Node>,
}

impl Node {
    /// Builds a node with no trailing margin.
    pub fn new(style: Style, children: Vec<Node>) -> (n: Node)
        ensures
            n.style == style,
            n.margin_end == 0,
            n.children == children,
    {
        Node { style, margin_end: 0, children }
    }

    /// Replaces the trailing margin; used by containers to inject spacing.
    pub fn with_margin_end(self, margin_end: u32) -> (n: Node)
        ensures
            n == (Node { margin_end, ..self }),
    {
        Node { margin_end, ..self }
    }
}

} // verus!
