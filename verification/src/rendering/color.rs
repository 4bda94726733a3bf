//! The palette selection: which palette is current and how cycling moves
//! through them.
use vstd::prelude::*;

verus! {

/// An RGB colour.
pub type Rgb = (u8, u8, u8);

/// The palettes, in the order of their numbers (0 to 9).
#[derive(Debug, Clone, Copy, PartialEq, Eq, Structural)]
pub enum ColorPalette {
    Classic,
    Inverted,
    Viridis,
    Plasma,
    Magma,
    Inferno,
    Grayscale,
    NewtonRapshon,
    Custom1,
    Custom2,
}

/// The number of a palette (its position in the declaration).
pub open spec fn palette_index(p: ColorPalette) -> u8 {
    match p {
        ColorPalette::Classic => 0,
        ColorPalette::Inverted => 1,
        ColorPalette::Viridis => 2,
        ColorPalette::Plasma => 3,
        ColorPalette::Magma => 4,
        ColorPalette::Inferno => 5,
        ColorPalette::Grayscale => 6,
        ColorPalette::NewtonRapshon => 7,
        ColorPalette::Custom1 => 8,
        ColorPalette::Custom2 => 9,
    }
}

/// The palette that a number selects; numbers 3 and 4 select Magma and
/// Plasma, in that order.
pub open spec fn palette_at(index: u8) -> Option<ColorPalette> {
    match index {
        0 => Some(ColorPalette::Classic),
        1 => Some(ColorPalette::Inverted),
        2 => Some(ColorPalette::Viridis),
        3 => Some(ColorPalette::Magma),
        4 => Some(ColorPalette::Plasma),
        5 => Some(ColorPalette::Inferno),
        6 => Some(ColorPalette::Grayscale),
        7 => Some(ColorPalette::NewtonRapshon),
        8 => Some(ColorPalette::Custom1),
        9 => Some(ColorPalette::Custom2),
        _ => None,
    }
}

/// The palette that cycling forward from `p` selects.
pub open spec fn next_palette(p: ColorPalette) -> ColorPalette {
    palette_at(((palette_index(p) + 1) % 10) as u8)->0
}

/// The palette that cycling backward from `p` selects.
pub open spec fn previous_palette(p: ColorPalette) -> ColorPalette {
    palette_at(((palette_index(p) + 9) % 10) as u8)->0
}

impl ColorPalette {
    /// The number of palettes.
    pub fn variant_count() -> (n: u8)
        ensures
            n == 10,
    {
        10
    }

    /// The number of this palette.
    pub fn index(&self) -> (i: u8)
        ensures
            i == palette_index(*self),
    {
        match self {
            ColorPalette::Classic => 0,
            ColorPalette::Inverted => 1,
            ColorPalette::Viridis => 2,
            ColorPalette::Plasma => 3,
            ColorPalette::Magma => 4,
            ColorPalette::Inferno => 5,
            ColorPalette::Grayscale => 6,
            ColorPalette::NewtonRapshon => 7,
            ColorPalette::Custom1 => 8,
            ColorPalette::Custom2 => 9,
        }
    }

    /// The palette that `index` selects, if any.
    pub fn from_index(index: u8) -> (p: Option<ColorPalette>)
        ensures
            p == palette_at(index),
    {
        match index {
            0 => Some(ColorPalette::Classic),
            1 => Some(ColorPalette::Inverted),
            2 => Some(ColorPalette::Viridis),
            3 => Some(ColorPalette::Magma),
            4 => Some(ColorPalette::Plasma),
            5 => Some(ColorPalette::Inferno),
            6 => Some(ColorPalette::Grayscale),
            7 => Some(ColorPalette::NewtonRapshon),
            8 => Some(ColorPalette::Custom1),
            9 => Some(ColorPalette::Custom2),
            _ => None,
        }
    }
}

/// Holds the palette that colours are computed with.
pub struct PaletteHandler {
    pub current_palette: ColorPalette,
}

impl PaletteHandler {
    /// A handler on the classic palette.
    pub fn new() -> (h: Self)
        ensures
            h.current_palette == ColorPalette::Classic,
    {
        PaletteHandler { current_palette: ColorPalette::Classic }
    }

    /// Moves to the palette after the current one, wrapping around.
    pub fn cycle_palette_forward(&mut self)
        ensures
            final(self).current_palette == next_palette(old(self).current_palette),
    {
        let palette_count = ColorPalette::variant_count();
        let current_index = self.current_palette.index();
        let next_index = (current_index + 1) % palette_count;
        self.current_palette = ColorPalette::from_index(next_index).unwrap();
    }

    /// Moves to the palette before the current one, wrapping around.
    pub fn cycle_palette_backward(&mut self)
        ensures
            final(self).current_palette == previous_palette(old(self).current_palette),
    {
        let palette_count = ColorPalette::variant_count();
        let current_index = self.current_palette.index();
        let next_index = (current_index + palette_count - 1) % palette_count;
        self.current_palette = ColorPalette::from_index(next_index).unwrap();
    }
}

/// The complement of a colour, channel by channel.
pub fn invert_rgb(color: Rgb) -> (inverted: Rgb)
    ensures
        inverted.0 == 255 - color.0,
        inverted.1 == 255 - color.1,
        inverted.2 == 255 - color.2,
{
    let (r, g, b) = color;
    (255 - r, 255 - g, 255 - b)
}

/// Cycling forward and then backward comes back to the starting palette,
/// except from Viridis, Plasma and Magma, where the numbers 3 and 4 select
/// Magma and Plasma in swapped order.
pub proof fn lemma_forward_then_backward(p: ColorPalette)
    requires
        p != ColorPalette::Viridis,
        p != ColorPalette::Plasma,
        p != ColorPalette::Magma,
    ensures
        previous_palette(next_palette(p)) == p,
{
}

/// Cycling backward and then forward comes back to the starting palette,
/// except from Plasma, Magma and Inferno.
pub proof fn lemma_backward_then_forward(p: ColorPalette)
    requires
        p != ColorPalette::Plasma,
        p != ColorPalette::Magma,
        p != ColorPalette::Inferno,
    ensures
        next_palette(previous_palette(p)) == p,
{
}

/// Every number below the palette count selects a palette, and every
/// palette's number is below it.
pub proof fn lemma_palette_numbers(p: ColorPalette, i: u8)
    ensures
        palette_index(p) < 10,
        i < 10 <==> palette_at(i) is Some,
{
}

} // verus!
