//! Layout constraints for a single node.
//!
//! A [`Style`] is a pure value: builder methods consume it and return
//! the updated copy, so widget constructors can chain configuration
//! fluently.

use vstd::prelude::*;

verus! {

/// Cross-axis alignment of a container's children.
#[derive(Clone, Copy, PartialEq, Eq, Structural, Debug)]
pub enum Align {
    /// Children keep their own cross size and sit at the content box start.
    Start,
    /// Children keep their own cross size and are centered.
    Center,
    /// Children keep their own cross size and sit at the content box end.
    End,
    /// Children without a fixed cross size fill the content box.
    Stretch,
}

/// The main axis along which a container lays out its children.
#[derive(Clone, Copy, PartialEq, Eq, Structural, Debug)]
pub enum Direction {
    /// Children flow left to right; the cross axis is vertical.
    Row,
    /// Children flow top to bottom; the cross axis is horizontal.
    Column,
}

/// The layout constraints of one node: fixed and maximum sizes, padding,
/// a grow factor for distributing leftover main-axis space, the cross-axis
/// alignment of children, and the main axis direction.
#[derive(Clone, Copy, PartialEq, Eq, Structural, Debug)]
pub struct Style {
    /// Fixed width in pixels; `None` leaves the width to the solver.
    pub width: Option<u32>,
    /// Fixed height in pixels; `None` leaves the height to the solver.
    pub height: Option<u32>,
    /// Upper bound applied when the width is not fixed.
    pub max_width: Option<u32>,
    /// Upper bound applied when the height is not fixed.
    pub max_height: Option<u32>,
    /// Inset of the content box from every edge, in pixels.
    pub padding: u32,
    /// Share of leftover main-axis space this node receives from its parent.
    pub grow: u32,
    /// Cross-axis alignment of this node's children.
    pub align: Align,
    /// Main axis of this node's children.
    pub direction: Direction,
}

impl Style {
    /// The neutral style: no constraints, no padding, no growth,
    /// stretched children flowing as a row.
    pub fn new() -> (s: Style)
        ensures
            s == Style::initial(),
    {
        Style {
            width: None,
            height: None,
            max_width: None,
            max_height: None,
            padding: 0,
            grow: 0,
            align: Align::Stretch,
            direction: Direction::Row,
        }
    }

    /// The value produced by [`Style::new`].
    pub open spec fn initial() -> Style {
        Style {
            width: None,
            height: None,
            max_width: None,
            max_height: None,
            padding: 0,
            grow: 0,
            align: Align::Stretch,
            direction: Direction::Row,
        }
    }

    /// Fixes the width.
    pub fn width(self, width: u32) -> (s: Style)
        ensures
            s == (Style { width: Some(width), ..self }),
    {
        Style { width: Some(width), ..self }
    }

    /// Fixes the height.
    pub fn height(self, height: u32) -> (s: Style)
        ensures
            s == (Style { height: Some(height), ..self }),
    {
        Style { height: Some(height), ..self }
    }

    /// Bounds the width the solver may pick when it is not fixed.
    pub fn max_width(self, max_width: u32) -> (s: Style)
        ensures
            s == (Style { max_width: Some(max_width), ..self }),
    {
        Style { max_width: Some(max_width), ..self }
    }

    /// Bounds the height the solver may pick when it is not fixed.
    pub fn max_height(self, max_height: u32) -> (s: Style)
        ensures
            s == (Style { max_height: Some(max_height), ..self }),
    {
        Style { max_height: Some(max_height), ..self }
    }

    /// Insets the content box by `px` on every edge.
    pub fn padding(self, px: u32) -> (s: Style)
        ensures
            s == (Style { padding: px, ..self }),
    {
        Style { padding: px, ..self }
    }

    /// Lets this node take one share of its parent's leftover main-axis
    /// space.
    pub fn grow(self) -> (s: Style)
        ensures
            s == (Style { grow: 1, ..self }),
    {
        Style { grow: 1, ..self }
    }

    /// Sets the share of leftover main-axis space this node receives,
    /// relative to its siblings' factors; zero keeps it at its own size.
    pub fn grow_factor(self, factor: u32) -> (s: Style)
        ensures
            s == (Style { grow: factor, ..self }),
    {
        Style { grow: factor, ..self }
    }

    /// Aligns children to the start of the cross axis.
    pub fn align_left(self) -> (s: Style)
        ensures
            s == (Style { align: Align::Start, ..self }),
    {
        Style { align: Align::Start, ..self }
    }

    /// Synonym of [`Style::grow`], for nodes meant to fill their row.
    pub fn fill_width(self) -> (s: Style)
        ensures
            s == (Style { grow: 1, ..self }),
    {
        Style { grow: 1, ..self }
    }

    /// Centers children on the cross axis.
    pub fn center_children(self) -> (s: Style)
        ensures
            s == (Style { align: Align::Center, ..self }),
    {
        Style { align: Align::Center, ..self }
    }

    /// Sets the main axis of this node's children.
    pub fn direction(self, direction: Direction) -> (s: Style)
        ensures
            s == (Style { direction, ..self }),
    {
        Style { direction, ..self }
    }
}

impl Default for Style {
    /// The neutral style, equal to [`Style::new`].
    fn default() -> (s: Style)
        ensures
            s == Style::initial(),
    {
        Style::new()
    }
}

} // verus!
