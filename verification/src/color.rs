use vstd::prelude::*;

verus! {

/// An 8-bit sRGB color with an alpha channel.
#[derive(Clone, Copy, PartialEq, Eq, Debug, Structural)]
pub struct Color {
    pub red: u8,
    pub green: u8,
    pub blue: u8,
    pub alpha: u8,
}

impl Color {
    /// Constructs a new `Color` from RGB values, fully opaque.
    pub fn new_rgb(red: u8, green: u8, blue: u8) -> (c: Color)
        ensures
            c == (Color { red, green, blue, alpha: 255 }),
    {
        Color { red, green, blue, alpha: 255 }
    }

    /// Constructs a new `Color` from RGBA values.
    pub fn new_rgba(red: u8, green: u8, blue: u8, alpha: u8) -> (c: Color)
        ensures
            c == (Color { red, green, blue, alpha }),
    {
        Color { red, green, blue, alpha }
    }

    /// Constructs a new `Color` set to black.
    pub fn black() -> (c: Color)
        ensures
            c == (Color { red: 0, green: 0, blue: 0, alpha: 255 }),
    {
        Self::new_rgb(0, 0, 0)
    }

    /// Constructs a new `Color` set to white.
    pub fn white() -> (c: Color)
        ensures
            c == (Color { red: 255, green: 255, blue: 255, alpha: 255 }),
    {
        Self::new_rgb(255, 255, 255)
    }

    /// Constructs a new `Color` set to gray.
    pub fn gray() -> (c: Color)
        ensures
            c == (Color { red: 128, green: 128, blue: 128, alpha: 255 }),
    {
        Self::new_rgb(128, 128, 128)
    }

    /// Constructs a new `Color` set to red.
    pub fn red() -> (c: Color)
        ensures
            c == (Color { red: 255, green: 0, blue: 0, alpha: 255 }),
    {
        Self::new_rgb(255, 0, 0)
    }

    /// Constructs a new `Color` set to green.
    pub fn green() -> (c: Color)
        ensures
            c == (Color { red: 0, green: 128, blue: 0, alpha: 255 }),
    {
        Self::new_rgb(0, 128, 0)
    }

    /// Constructs a new `Color` set to blue.
    pub fn blue() -> (c: Color)
        ensures
            c == (Color { red: 0, green: 0, blue: 255, alpha: 255 }),
    {
        Self::new_rgb(0, 0, 255)
    }
}

} // verus!
