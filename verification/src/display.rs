//! The 64x32 monochrome framebuffer.
//!
//! Pixels are stored row-major: the pixel at column `x`, row `y` lives at
//! index `y * 64 + x`. Every mutation after construction is an XOR performed
//! by the sprite-draw instruction; the screen is cleared wholesale on `CLS`
//! and on reset.

use vstd::prelude::*;

verus! {

/// The framebuffer: 2048 pixels, row-major, all false when blank.
pub struct Chip8Display {
    screen: [bool; 2048],
}

impl View for Chip8Display {
    type V = Seq<bool>;

    closed spec fn view(&self) -> Seq<bool> {
        self.screen@
    }
}

/// A screen with every pixel off.
pub open spec fn blank_screen() -> Seq<bool> {
    Seq::new(2048, |p: int| false)
}

impl Chip8Display {
    /// A fresh display with every pixel off.
    pub fn new() -> (d: Chip8Display)
        ensures
            d@ =~= blank_screen(),
    {
        Chip8Display { screen: [false; 2048] }
    }

    /// Turns every pixel off.
    pub fn clear(&mut self)
        ensures
            final(self)@ =~= blank_screen(),
    {
        self.screen = [false; 2048];
    }

    /// Reads the pixel at column `x`, row `y`.
    pub fn pixel(&self, x: usize, y: usize) -> (lit: bool)
        requires
            x < 64,
            y < 32,
        ensures
            lit == self@[y * 64 + x],
    {
        self.screen[y * 64 + x]
    }

    /// XORs one pixel with a sprite bit and reports whether the XOR turned a
    /// lit pixel into a collision (both the pixel and the bit were set).
    pub(crate) fn xor_pixel(&mut self, p: usize, bit: bool) -> (collision: bool)
        requires
            p < 2048,
        ensures
            final(self)@ =~= old(self)@.update(p as int, old(self)@[p as int] != bit),
            collision == (old(self)@[p as int] && bit),
    {
        let was = self.screen[p];
        self.screen[p] = was != bit;
        was && bit
    }
}

impl Default for Chip8Display {
    /// Same as [`Chip8Display::new`]: a blank screen.
    fn default() -> (d: Chip8Display)
        ensures
            d@ =~= blank_screen(),
    {
        Chip8Display::new()
    }
}

} // verus!
