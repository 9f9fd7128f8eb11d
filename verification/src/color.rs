use vstd::prelude::*;

verus! {

/// A color struct
#[derive(Copy, Clone, Debug, PartialEq, Eq, Structural)]
pub struct Color {
    pub r: u8,
    pub g: u8,
    pub b: u8,
}

/// Absolute difference between two 8-bit channel values.
pub open spec fn channel_dist(a: u8, b: u8) -> int {
    if a >= b {
        a - b
    } else {
        b - a
    }
}

/// The Manhattan distance between two colors: the sum of the absolute
/// per-channel differences.
pub open spec fn color_dist(c1: Color, c2: Color) -> int {
    channel_dist(c1.r, c2.r) + channel_dist(c1.g, c2.g) + channel_dist(c1.b, c2.b)
}

impl Color {
    /// Get the manhattan distance between two colors
    pub fn dist(&self, color: &Color) -> (d: u16)
        ensures
            d == color_dist(*self, *color),
    {
        let dr: u16 = if self.r >= color.r {
            (self.r - color.r) as u16
        } else {
            (color.r - self.r) as u16
        };
        let dg: u16 = if self.g >= color.g {
            (self.g - color.g) as u16
        } else {
            (color.g - self.g) as u16
        };
        let db: u16 = if self.b >= color.b {
            (self.b - color.b) as u16
        } else {
            (color.b - self.b) as u16
        };
        dr + dg + db
    }
}

/// Every color is at distance zero from itself.
pub proof fn lemma_color_dist_self_zero(c: Color)
    ensures
        color_dist(c, c) == 0,
{
}

/// Color distance is symmetric.
pub proof fn lemma_color_dist_symmetric(c1: Color, c2: Color)
    ensures
        color_dist(c1, c2) == color_dist(c2, c1),
{
}

} // verus!
