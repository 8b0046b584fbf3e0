//! The RGBA pixel grid the engine operates on: a width x height buffer of
//! 8-bit RGBA pixels, owned by the caller and mutated in place. The view is
//! the flat pixel sequence in row-major order.
use vstd::prelude::*;

verus! {

/// One RGBA pixel, 8 bits per channel.
#[derive(Clone, Copy, PartialEq, Eq, Structural, Debug)]
pub struct Rgba {
    pub r: u8,
    pub g: u8,
    pub b: u8,
    pub a: u8,
}

/// A width x height buffer of RGBA pixels in row-major order.
pub struct PixelGrid {
    pub width: usize,
    pub height: usize,
    pub data: Vec<Rgba>,
}

impl PixelGrid {
    /// The buffer holds exactly one pixel per grid cell.
    pub open spec fn wf(self) -> bool {
        self.data@.len() == self.width * self.height
    }

    /// The flat pixel sequence, row-major.
    pub open spec fn pixels(self) -> Seq<Rgba> {
        self.data@
    }

    /// The flat index of cell (x, y).
    pub open spec fn at(self, x: int, y: int) -> int {
        y * self.width + x
    }

    /// A grid of the given size with every pixel set to `fill`.
    pub fn new_filled(width: usize, height: usize, fill: Rgba) -> (g: PixelGrid)
        requires
            width * height <= usize::MAX,
        ensures
            g.wf(),
            g.width == width,
            g.height == height,
            g.pixels().len() == width * height,
            forall|k: int| 0 <= k < g.pixels().len() ==> g.pixels()[k] == fill,
    {
        let n = width * height;
        let mut data: Vec<Rgba> = Vec::new();
        let mut i: usize = 0;
        while i < n
            invariant
                i <= n,
                data@.len() == i,
                forall|k: int| 0 <= k < i ==> data@[k] == fill,
            decreases n - i,
        {
            data.push(fill);
            i = i + 1;
        }
        PixelGrid { width, height, data }
    }

    /// Read the pixel at (x, y).
    pub fn get(&self, x: usize, y: usize) -> (p: Rgba)
        requires
            self.wf(),
            x < self.width,
            y < self.height,
        ensures
            p == self.pixels()[self.at(x as int, y as int)],
    {
        let n = self.data.len();
        proof {
            assert(y * self.width + x < self.width * self.height) by (nonlinear_arith)
                requires
                    x < self.width,
                    y < self.height,
            ;
        }
        let i = y * self.width + x;
        self.data[i]
    }

    /// Write the pixel at (x, y); every other pixel is unchanged.
    pub fn set(&mut self, x: usize, y: usize, p: Rgba)
        requires
            old(self).wf(),
            x < old(self).width,
            y < old(self).height,
        ensures
            final(self).wf(),
            final(self).width == old(self).width,
            final(self).height == old(self).height,
            final(self).pixels() == old(self).pixels().update(
                old(self).at(x as int, y as int),
                p,
            ),
    {
        let n = self.data.len();
        proof {
            assert(y * self.width + x < self.width * self.height) by (nonlinear_arith)
                requires
                    x < self.width,
                    y < self.height,
            ;
        }
        let i = y * self.width + x;
        self.data.set(i, p);
    }

    /// Read the pixel at flat index `i` (row-major).
    pub fn get_flat(&self, i: usize) -> (p: Rgba)
        requires
            i < self.pixels().len(),
        ensures
            p == self.pixels()[i as int],
    {
        self.data[i]
    }

    /// Write the pixel at flat index `i`; every other pixel is unchanged.
    pub fn set_flat(&mut self, i: usize, p: Rgba)
        requires
            i < old(self).pixels().len(),
        ensures
            final(self).width == old(self).width,
            final(self).height == old(self).height,
            final(self).pixels() == old(self).pixels().update(i as int, p),
            old(self).wf() ==> final(self).wf(),
    {
        self.data.set(i, p);
    }

    /// An independent copy with the same dimensions and pixels.
    pub fn duplicate(&self) -> (g: PixelGrid)
        requires
            self.wf(),
        ensures
            g.wf(),
            g.width == self.width,
            g.height == self.height,
            g.pixels() == self.pixels(),
    {
        let n = self.data.len();
        let mut data: Vec<Rgba> = Vec::new();
        let mut i: usize = 0;
        while i < n
            invariant
                i <= n,
                n == self.data@.len(),
                data@.len() == i,
                forall|k: int| 0 <= k < i ==> data@[k] == self.data@[k],
            decreases n - i,
        {
            data.push(self.data[i]);
            i = i + 1;
        }
        proof {
            assert(data@ =~= self.data@);
        }
        PixelGrid { width: self.width, height: self.height, data }
    }
}

} // verus!
