//! Shared types of the e-paper panel: the seven-color palette, the
//! full-color pixel type that content generators produce, and the driver
//! error taxonomy.

use vstd::prelude::*;

pub mod buffer;
pub mod driver;

verus! {

/// One entry of the panel's fixed 3-bit color space. `Clean` is not a real
/// color: the panel uses it only for bulk erases, and color reduction never
/// produces it.
#[derive(Clone, Copy, Debug, PartialEq, Eq, Structural)]
pub enum Color {
    Black,
    White,
    Green,
    Blue,
    Red,
    Yellow,
    Orange,
    Clean,
}

impl Color {
    /// The 4-bit index the panel hardware assigns to this palette entry.
    pub open spec fn spec_index(self) -> u8 {
        match self {
            Color::Black => 0,
            Color::White => 1,
            Color::Green => 2,
            Color::Blue => 3,
            Color::Red => 4,
            Color::Yellow => 5,
            Color::Orange => 6,
            Color::Clean => 7,
        }
    }

    /// Returns the palette index sent to the panel for this color.
    pub fn index(self) -> (r: u8)
        ensures
            r == self.spec_index(),
    {
        match self {
            Color::Black => 0,
            Color::White => 1,
            Color::Green => 2,
            Color::Blue => 3,
            Color::Red => 4,
            Color::Yellow => 5,
            Color::Orange => 6,
            Color::Clean => 7,
        }
    }

    /// Reduce a 24-bit color to the nearest palette entry.
    pub fn from_rgb888(rgb: Rgb888) -> (r: Color)
        ensures
            r == spec_from_rgb888(rgb),
    {
        if rgb.r == 0 && rgb.g == 0 && rgb.b == 0 {
            Color::Black
        } else if rgb.r == 255 && rgb.g == 255 && rgb.b == 255 {
            Color::White
        } else if rgb.r == 0 && rgb.g == 255 && rgb.b == 0 {
            Color::Green
        } else if rgb.r == 0 && rgb.g == 0 && rgb.b == 255 {
            Color::Blue
        } else if rgb.r == 255 && rgb.g == 0 && rgb.b == 0 {
            Color::Red
        } else if rgb.r == 255 && rgb.g == 255 && rgb.b == 0 {
            Color::Yellow
        } else if rgb.r == 255 && rgb.g == 165 && rgb.b == 0 {
            Color::Orange
        } else {
            Color::White
        }
    }
}

/// A full 24-bit color, as content generators hand it to the draw target.
#[derive(Clone, Copy, Debug, PartialEq, Eq, Structural)]
pub struct Rgb888 {
    pub r: u8,
    pub g: u8,
    pub b: u8,
}

impl Rgb888 {
    /// Builds a color from its three channels.
    pub fn new(r: u8, g: u8, b: u8) -> (c: Rgb888)
        ensures
            c == (Rgb888 { r, g, b }),
    {
        Rgb888 { r, g, b }
    }
}

/// Color reduction from 24-bit color to the seven real palette entries.
/// Exactly the seven panel primaries map to themselves; every other input
/// defaults to white. `Clean` is never produced.
pub open spec fn spec_from_rgb888(rgb: Rgb888) -> Color {
    if rgb == (Rgb888 { r: 0, g: 0, b: 0 }) {
        Color::Black
    } else if rgb == (Rgb888 { r: 255, g: 255, b: 255 }) {
        Color::White
    } else if rgb == (Rgb888 { r: 0, g: 255, b: 0 }) {
        Color::Green
    } else if rgb == (Rgb888 { r: 0, g: 0, b: 255 }) {
        Color::Blue
    } else if rgb == (Rgb888 { r: 255, g: 0, b: 0 }) {
        Color::Red
    } else if rgb == (Rgb888 { r: 255, g: 255, b: 0 }) {
        Color::Yellow
    } else if rgb == (Rgb888 { r: 255, g: 165, b: 0 }) {
        Color::Orange
    } else {
        Color::White
    }
}

/// Color reduction never yields the erase sentinel, so every reduced pixel
/// index fits in the panel's three color bits.
pub proof fn lemma_reduction_avoids_clean(rgb: Rgb888)
    ensures
        spec_from_rgb888(rgb) != Color::Clean,
        spec_from_rgb888(rgb).spec_index() < 7,
{
}

/// What can go wrong when driving the panel: the busy line stayed asserted
/// past its budget, or a bus transaction failed outright.
#[derive(Clone, Copy, Debug, PartialEq, Eq, Structural)]
pub enum Error {
    Timeout,
    Protocol,
}

} // verus!
