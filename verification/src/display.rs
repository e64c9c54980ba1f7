use vstd::prelude::*;

verus! {

/// Width of the screen in pixels.
pub const WIDTH: usize = 64;

/// Height of the screen in pixels.
pub const HEIGHT: usize = 32;

/// Number of pixels on the screen (`WIDTH * HEIGHT`).
pub const PIXEL_COUNT: usize = 2048;

/// The monochrome screen, stored row by row: the pixel at column `px` and
/// row `py` is `pixels[py * WIDTH + px]`, `true` when lit.
pub struct Display {
    pub pixels: [bool; PIXEL_COUNT],
}

/// A screen on which no pixel is lit.
pub open spec fn blank_screen() -> Seq<bool> {
    Seq::new(PIXEL_COUNT as nat, |idx: int| false)
}

impl Display {
    /// A blank screen.
    pub fn new() -> (d: Self)
        ensures
            d.pixels@ == blank_screen(),
    {
        let d = Display { pixels: [false; PIXEL_COUNT] };
        assert(d.pixels@ =~= blank_screen());
        d
    }

    /// Turns every pixel off.
    pub fn clear(&mut self)
        ensures
            final(self).pixels@ == blank_screen(),
    {
        self.pixels = [false; PIXEL_COUNT];
        assert(self.pixels@ =~= blank_screen());
    }
}

impl Default for Display {
    fn default() -> (d: Self)
        ensures
            d.pixels@ == blank_screen(),
    {
        Self::new()
    }
}

} // verus!
