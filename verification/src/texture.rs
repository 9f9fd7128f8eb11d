use vstd::prelude::*;
use crate::color::Color;

verus! {

/// A sparse texture overlay cell. Each present field overrides the
/// framebuffer cell it is painted onto; each absent field leaves the
/// framebuffer's previously stored value untouched.
#[derive(Debug)]
pub struct TextureCell {
    pub character: Option<char>,
    pub fg_color: Option<Color>,
    pub bg_color: Option<Color>,
}

} // verus!
