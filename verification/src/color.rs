//! Choosing an 8-bit colour index for a fresh glyph.

use crate::random::{choose_one, random_in_range};
use vstd::prelude::*;

verus! {

/// Which colours the animation draws from.
#[derive(Clone, Copy, Debug, PartialEq, Eq)]
pub enum ColorPickerOption {
    /// A handful of greens and one bright index.
    Greens,
    /// Every index of the 256-colour palette.
    Any,
}

/// The green-family indices, with the bright index 255 last.
pub open spec fn green_colors() -> Seq<u8> {
    seq![46u8, 47u8, 48u8, 34u8, 70u8, 64u8, 255u8]
}

impl ColorPickerOption {
    /// Whether a draw under this mode can yield `color`.
    pub open spec fn allows(self, color: u8) -> bool {
        match self {
            ColorPickerOption::Greens => green_colors().contains(color),
            ColorPickerOption::Any => true,
        }
    }
}

/// The table that [`GreenPicker`] draws from.
pub fn green_palette() -> (palette: Vec<u8>)
    ensures
        palette@ == green_colors(),
{
    vec![46u8, 47u8, 48u8, 34u8, 70u8, 64u8, 255u8]
}

/// The index that a draw `n` from `0..256` stands for.
pub fn color_index(n: i32) -> (color: u8)
    requires
        0 <= n < 256,
    ensures
        color == n,
{
    n as u8
}

/// Draws from the green palette.
pub struct GreenPicker;

/// Draws from the whole 256-colour range.
pub struct RainbowPicker;

impl GreenPicker {
    /// A random member of [`green_colors`].
    pub fn get_color() -> (color: u8)
        ensures
            green_colors().contains(color),
            ColorPickerOption::Greens.allows(color),
    {
        let palette = green_palette();
        *choose_one(&palette).unwrap()
    }
}

impl RainbowPicker {
    /// A random index from 0 to 255, both included.
    pub fn get_color() -> (color: u8)
        ensures
            ColorPickerOption::Any.allows(color),
    {
        color_index(random_in_range(0, 256))
    }
}

} // verus!
