//! Plain value types shared by the drawing primitives.

use vstd::prelude::*;

verus! {

/// A screen-space coordinate. Either component may be negative or lie beyond
/// the surface it is used with.
#[derive(Clone, Copy, Debug, PartialEq, Eq, Structural)]
pub struct Vec2 {
    pub x: i32,
    pub y: i32,
}

impl Vec2 {
    pub fn new(x: i32, y: i32) -> (p: Vec2)
        ensures
            p == (Vec2 { x, y }),
    {
        Vec2 { x, y }
    }
}

/// A colour with an alpha channel. The surface stores three bytes per pixel,
/// so the alpha component is carried along but never written.
#[derive(Clone, Copy, Debug, PartialEq, Eq, Structural)]
pub struct Color {
    pub r: u8,
    pub g: u8,
    pub b: u8,
    pub a: u8,
}

impl Color {
    /// The channels that a surface stores for this colour.
    pub open spec fn rgb(self) -> (u8, u8, u8) {
        (self.r, self.g, self.b)
    }

    /// An opaque colour.
    #[allow(non_snake_case)]
    pub fn RGB(r: u8, g: u8, b: u8) -> (c: Color)
        ensures
            c == (Color { r, g, b, a: 255 }),
    {
        Color { r, g, b, a: 255 }
    }

    #[allow(non_snake_case)]
    pub fn RGBA(r: u8, g: u8, b: u8, a: u8) -> (c: Color)
        ensures
            c == (Color { r, g, b, a }),
    {
        Color { r, g, b, a }
    }
}

} // verus!
