//! Colors as packed 24-bit RGB words, red in the highest byte.

use vstd::prelude::*;

verus! {

/// A fixed color known at compile time.
pub trait ConstColor<const T: u32> {
    fn get_color() -> (c: u32)
        ensures
            c == T,
    {
        T
    }
}

/// Anything that can resolve to a packed 24-bit RGB word.
pub trait Color {
    /// The packed color this value denotes.
    spec fn color_spec(&self) -> u32;

    fn to_color(&self) -> (c: u32)
        ensures
            c == self.color_spec(),
    ;
}

impl Color for u32 {
    open spec fn color_spec(&self) -> u32 {
        *self
    }

    fn to_color(&self) -> (c: u32)
        ensures
            c == self.color_spec(),
    {
        *self
    }
}

impl Color for (u8, u8, u8) {
    /// Red, green and blue bytes packed into one word.
    open spec fn color_spec(&self) -> u32 {
        ((self.0 as u32) << 16) | ((self.1 as u32) << 8) | (self.2 as u32)
    }

    fn to_color(&self) -> (c: u32)
        ensures
            c == self.color_spec(),
    {
        let r: u32 = self.0 as u32;
        let g: u32 = self.1 as u32;
        let b: u32 = self.2 as u32;
        (r << 16) | (g << 8) | b
    }
}

} // verus!
