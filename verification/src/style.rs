//! Colours and text attributes of a terminal cell.

use vstd::prelude::*;

verus! {

/// A colour as a terminal names it: the pane's default, or an entry of the palette.
#[derive(Clone, Copy, Debug, PartialEq, Eq, Structural)]
pub enum Color {
    Default,
    Palette(u8),
}

/// The attributes that a printed character takes from the pane at the moment it is written.
#[derive(Clone, Copy, Debug, PartialEq, Eq, Structural)]
pub struct Style {
    pub fg: Color,
    pub bg: Color,
    pub bold: bool,
    pub underline: bool,
}

/// A displayable colour: red, green, blue and opacity, each from 0 to 255.
#[derive(Clone, Copy, Debug, PartialEq, Eq, Structural)]
pub struct Rgba {
    pub r: u8,
    pub g: u8,
    pub b: u8,
    pub a: u8,
}

/// The style of text that no sequence has coloured yet.
pub open spec fn plain_style() -> Style {
    Style { fg: Color::Default, bg: Color::Default, bold: false, underline: false }
}

/// An opaque colour with the given channels.
pub open spec fn opaque(r: u8, g: u8, b: u8) -> Rgba {
    Rgba { r, g, b, a: 255 }
}

/// The displayable colour of each palette entry. The first sixteen entries have their
/// usual colours; the default colour, and every entry beyond the sixteenth, show as white.
pub open spec fn palette_rgba(color: Color) -> Rgba {
    match color {
        Color::Default => opaque(255, 255, 255),
        Color::Palette(index) => {
            if index == 0 {
                opaque(0, 0, 0)
            } else if index == 1 {
                opaque(128, 0, 0)
            } else if index == 2 {
                opaque(0, 128, 0)
            } else if index == 3 {
                opaque(128, 128, 0)
            } else if index == 4 {
                opaque(0, 0, 128)
            } else if index == 5 {
                opaque(128, 0, 128)
            } else if index == 6 {
                opaque(0, 128, 128)
            } else if index == 7 {
                opaque(220, 220, 220)
            } else if index == 8 {
                opaque(160, 160, 160)
            } else if index == 9 {
                opaque(255, 0, 0)
            } else if index == 10 {
                opaque(0, 255, 0)
            } else if index == 11 {
                opaque(255, 255, 0)
            } else if index == 12 {
                opaque(0, 0, 255)
            } else if index == 13 {
                opaque(255, 0, 255)
            } else if index == 14 {
                opaque(0, 255, 255)
            } else {
                opaque(255, 255, 255)
            }
        },
    }
}

impl Style {
    /// The plain style: default colours, neither bold nor underlined.
    pub fn plain() -> (style: Style)
        ensures
            style == plain_style(),
    {
        Style { fg: Color::Default, bg: Color::Default, bold: false, underline: false }
    }
}

impl Rgba {
    /// An opaque colour from its three channels.
    pub fn from_rgb(r: u8, g: u8, b: u8) -> (color: Rgba)
        ensures
            color == opaque(r, g, b),
    {
        Rgba { r, g, b, a: 255 }
    }
}

/// Converts a terminal colour to the colour that a renderer paints.
pub fn color_to_rgba(color: Color) -> (rgba: Rgba)
    ensures
        rgba == palette_rgba(color),
{
    match color {
        Color::Default => Rgba::from_rgb(255, 255, 255),
        Color::Palette(index) => match index {
            0 => Rgba::from_rgb(0, 0, 0),
            1 => Rgba::from_rgb(128, 0, 0),
            2 => Rgba::from_rgb(0, 128, 0),
            3 => Rgba::from_rgb(128, 128, 0),
            4 => Rgba::from_rgb(0, 0, 128),
            5 => Rgba::from_rgb(128, 0, 128),
            6 => Rgba::from_rgb(0, 128, 128),
            7 => Rgba::from_rgb(220, 220, 220),
            8 => Rgba::from_rgb(160, 160, 160),
            9 => Rgba::from_rgb(255, 0, 0),
            10 => Rgba::from_rgb(0, 255, 0),
            11 => Rgba::from_rgb(255, 255, 0),
            12 => Rgba::from_rgb(0, 0, 255),
            13 => Rgba::from_rgb(255, 0, 255),
            14 => Rgba::from_rgb(0, 255, 255),
            _ => Rgba::from_rgb(255, 255, 255),
        },
    }
}

} // verus!
