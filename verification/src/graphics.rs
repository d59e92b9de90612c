//! Basic geometry and window-configuration types shared by the UI core.
//!
//! Positions of input events are signed, since a cursor may leave the
//! window; resolved layout geometry is unsigned and measured from the
//! root's top-left corner.

use vstd::prelude::*;

verus! {

/// A point in screen space, used for cursor positions.
#[derive(Clone, Copy, PartialEq, Eq, Structural, Debug)]
pub struct Point {
    /// Horizontal coordinate in pixels.
    pub x: i32,
    /// Vertical coordinate in pixels.
    pub y: i32,
}

impl Point {
    /// Builds a point from its two coordinates.
    pub fn new(x: i32, y: i32) -> (p: Point)
        ensures
            p == (Point { x, y }),
    {
        Point { x, y }
    }
}

/// A generic axis-aligned rectangle.
#[derive(Clone, Copy, PartialEq, Eq, Structural, Debug)]
pub struct Rectangle<T> {
    /// X coordinate of the top-left corner.
    pub x: T,
    /// Y coordinate of the top-left corner.
    pub y: T,
    /// Width of the rectangle.
    pub width: T,
    /// Height of the rectangle.
    pub height: T,
}

/// Whether `p` lies inside `r`, edges included.
pub open spec fn spec_contains(r: Rectangle<u32>, p: Point) -> bool {
    &&& r.x <= p.x as int
    &&& p.x as int <= r.x + r.width
    &&& r.y <= p.y as int
    &&& p.y as int <= r.y + r.height
}

impl Rectangle<u32> {
    /// Whether the given point lies inside this rectangle, edges included.
    pub fn contains(&self, point: Point) -> (b: bool)
        ensures
            b == spec_contains(*self, point),
    {
        let px: i64 = point.x as i64;
        let py: i64 = point.y as i64;
        let x: i64 = self.x as i64;
        let y: i64 = self.y as i64;
        let w: i64 = self.width as i64;
        let h: i64 = self.height as i64;
        x <= px && px <= x + w && y <= py && py <= y + h
    }
}

/// An RGBA color with 8-bit channels.
#[derive(Clone, Copy, PartialEq, Eq, Structural, Debug)]
pub struct Color {
    /// Red channel.
    pub r: u8,
    /// Green channel.
    pub g: u8,
    /// Blue channel.
    pub b: u8,
    /// Alpha channel; 255 is opaque.
    pub a: u8,
}

impl Color {
    /// Opaque white.
    pub fn white() -> (c: Color)
        ensures
            c == (Color { r: 255, g: 255, b: 255, a: 255 }),
    {
        Color { r: 255, g: 255, b: 255, a: 255 }
    }

    /// Opaque black.
    pub fn black() -> (c: Color)
        ensures
            c == (Color { r: 0, g: 0, b: 0, a: 255 }),
    {
        Color { r: 0, g: 0, b: 0, a: 255 }
    }
}

/// An error raised by the framework.
///
/// The verified core never fails: invalid configurations resolve to
/// zero-size geometry and overflowing layouts saturate instead of
/// erroring. Only the unverified backend glue around the library can
/// fail, and it reports that failure through this type.
#[derive(Debug)]
pub enum Error {
    /// The windowing or GPU backend could not be set up or driven.
    Backend(String),
}

/// The window configuration a caller hands to the runtime glue.
pub struct Settings {
    /// Title of the window.
    pub title: String,
    /// Width and height of the window, in pixels.
    pub size: (u32, u32),
    /// Whether the user may resize the window.
    pub resizable: bool,
}

} // verus!
