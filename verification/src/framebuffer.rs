//! A fixed-size monochrome pixel grid with a "needs redraw" flag.
//!
//! Pixels are stored row-major, one byte per pixel, each byte restricted to
//! `{0, 1}`.  The core only ever sets the redraw flag; the consumer of a
//! frame clears it itself.

use vstd::prelude::*;
use crate::filled_vec;

verus! {

pub struct Framebuffer {
    pub width: usize,
    pub height: usize,
    pub needs_refresh: bool,
    data: Vec<u8>,
}

/// Mathematical image of a framebuffer: its dimensions, the pixel grid
/// (row-major, pixel `(x, y)` at `y * width + x`), and the redraw flag.
pub ghost struct FbState {
    pub width: usize,
    pub height: usize,
    pub pixels: Seq<u8>,
    pub dirty: bool,
}

impl View for Framebuffer {
    type V = FbState;

    closed spec fn view(&self) -> FbState {
        FbState {
            width: self.width,
            height: self.height,
            pixels: self.data@,
            dirty: self.needs_refresh,
        }
    }
}

/// Row-major position of pixel `(x, y)` in a grid `width` pixels wide.
pub open spec fn pix(width: int, x: int, y: int) -> int {
    y * width + x
}

impl Framebuffer {
    /// One byte per pixel, each either 0 or 1.
    pub open spec fn wf(&self) -> bool {
        &&& self@.pixels.len() == self@.width * self@.height
        &&& forall|k: int| 0 <= k < self@.pixels.len() ==> self@.pixels[k] <= 1
    }

    /// A grid of `width * height` pixels, all off, not yet dirty.
    pub fn new(width: usize, height: usize) -> (fb: Framebuffer)
        requires
            width * height <= usize::MAX,
        ensures
            fb.wf(),
            fb@.width == width,
            fb@.height == height,
            !fb@.dirty,
            forall|k: int| 0 <= k < fb@.pixels.len() ==> fb@.pixels[k] == 0,
    {
        Framebuffer { width, height, needs_refresh: false, data: filled_vec(width * height, 0u8) }
    }

    /// Turns every pixel off and marks the frame dirty.
    pub fn clear(&mut self)
        requires
            old(self).wf(),
        ensures
            final(self).wf(),
            final(self)@.width == old(self)@.width,
            final(self)@.height == old(self)@.height,
            final(self)@.pixels.len() == old(self)@.pixels.len(),
            forall|k: int| 0 <= k < final(self)@.pixels.len() ==> final(self)@.pixels[k] == 0,
            final(self)@.dirty,
    {
        let n = self.data.len();
        self.data = filled_vec(n, 0u8);
        self.needs_refresh = true;
    }

    /// Writes one pixel and marks the frame dirty.  The caller supplies
    /// in-range coordinates; there is no bounds check of its own here.
    pub fn set(&mut self, x: usize, y: usize, val: u8)
        requires
            old(self).wf(),
            x < old(self)@.width,
            y < old(self)@.height,
            val <= 1,
        ensures
            final(self).wf(),
            final(self)@.width == old(self)@.width,
            final(self)@.height == old(self)@.height,
            final(self)@.pixels == old(self)@.pixels.update(
                pix(old(self)@.width as int, x as int, y as int),
                val,
            ),
            final(self)@.dirty,
    {
        let n = self.data.len();
        proof {
            assert(y * self.width + x < self.width * self.height) by (nonlinear_arith)
                requires
                    x < self.width,
                    y < self.height,
            ;
            assert(y * self.width + x < n);
        }
        let idx = y * self.width + x;
        self.data[idx] = val;
        self.needs_refresh = true;
    }

    /// Reads one pixel.  The caller supplies in-range coordinates.
    pub fn get(&self, x: usize, y: usize) -> (r: u8)
        requires
            self.wf(),
            x < self@.width,
            y < self@.height,
        ensures
            r == self@.pixels[pix(self@.width as int, x as int, y as int)],
            r <= 1,
    {
        let n = self.data.len();
        proof {
            assert(y * self.width + x < self.width * self.height) by (nonlinear_arith)
                requires
                    x < self.width,
                    y < self.height,
            ;
            assert(y * self.width + x < n);
        }
        let idx = y * self.width + x;
        self.data[idx]
    }

    /// Whether the frame changed since the flag was last cleared.
    pub fn is_dirty(&self) -> (r: bool)
        ensures
            r == self@.dirty,
    {
        self.needs_refresh
    }

    /// A copy of the pixel grid.
    pub fn get_data(&self) -> (r: Vec<u8>)
        ensures
            r@ == self@.pixels,
    {
        let r = self.data.clone();
        proof {
            assert forall|k: int| 0 <= k < r@.len() implies r@[k] == self.data@[k] by {
                assert(cloned(self.data@[k], r@[k]));
            }
            assert(r@ =~= self.data@);
        }
        r
    }
}

} // verus!
