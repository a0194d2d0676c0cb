//! RGBA colors.

use vstd::prelude::*;

verus! {

/// An 8-bit-per-channel RGBA color.
#[derive(Clone, Copy, PartialEq, Eq, Structural, Debug)]
pub struct Color {
    pub red: u8,
    pub green: u8,
    pub blue: u8,
    pub alpha: u8,
}

impl Color {
    /// An opaque color from its three channels.
    pub fn rgb(red: u8, green: u8, blue: u8) -> (r: Color)
        ensures
            r == (Color { red, green, blue, alpha: 255u8 }),
    {
        Color { red, green, blue, alpha: 255 }
    }

    /// A color from all four channels.
    pub fn rgba(red: u8, green: u8, blue: u8, alpha: u8) -> (r: Color)
        ensures
            r == (Color { red, green, blue, alpha }),
    {
        Color { red, green, blue, alpha }
    }

    /// The red channel.
    pub fn r(&self) -> (r: u8)
        ensures
            r == self.red,
    {
        self.red
    }

    /// The green channel.
    pub fn g(&self) -> (r: u8)
        ensures
            r == self.green,
    {
        self.green
    }

    /// The blue channel.
    pub fn b(&self) -> (r: u8)
        ensures
            r == self.blue,
    {
        self.blue
    }

    /// The alpha channel; zero is fully transparent.
    pub fn a(&self) -> (r: u8)
        ensures
            r == self.alpha,
    {
        self.alpha
    }
}

impl Default for Color {
    /// The default color is fully transparent black.
    fn default() -> (r: Self)
        ensures
            r == (Color { red: 0u8, green: 0u8, blue: 0u8, alpha: 0u8 }),
    {
        Color { red: 0, green: 0, blue: 0, alpha: 0 }
    }
}

} // verus!
