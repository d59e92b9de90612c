//! A run of text.

use vstd::prelude::*;

use crate::graphics::Color;
use crate::graphics::Rectangle;

verus! {

/// The drawing capability a renderer must offer to display text: a way
/// to measure a string at a font size, and a way to draw it into
/// resolved bounds. The UI core never names a concrete renderer; any
/// type implementing this trait can draw [`Text`].
pub trait Renderer {
    /// Measures `content` at `size`, returning `(width, height)` in
    /// pixels. Layout contracts treat the result as an opaque intrinsic
    /// size.
    fn measure_text(&self, content: &str, size: u32) -> (u32, u32);

    /// Draws `content` at `size` in `color` inside `bounds`.
    fn draw_text(&mut self, bounds: Rectangle<u32>, content: &str, size: u32, color: Color);
}

/// A paragraph of text with a font size and a color.
pub struct Text {
    /// What to display.
    pub content: String,
    /// Font size in pixels.
    pub size: u32,
    /// Fill color.
    pub color: Color,
}

impl Text {
    /// Builds white text at the default font size.
    pub fn new(content: &str) -> (t: Text)
        ensures
            t.content@ == content@,
            t.size == 20,
            t.color == (Color { r: 255, g: 255, b: 255, a: 255 }),
    {
        Text { content: content.to_owned(), size: 20, color: Color::white() }
    }

    /// Sets the font size.
    pub fn size(self, size: u32) -> (t: Text)
        ensures
            t == (Text { size, ..self }),
    {
        Text { size, ..self }
    }

    /// Sets the fill color.
    pub fn color(self, color: Color) -> (t: Text)
        ensures
            t == (Text { color, ..self }),
    {
        Text { color, ..self }
    }
}

} // verus!
