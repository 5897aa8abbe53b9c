//! Stratified sub-pixel sampling on an n-by-n grid.

use crate::image::Image;
use vstd::prelude::*;

verus! {

/// Samples per axis, and the bound on scattering depth.
#[derive(Debug, Clone, Copy)]
pub struct SamplerConfig {
    pub n: u32,
    pub max_depth: u32,
}

/// Enumerates the `n * n` cells of the sub-pixel grid of each pixel.
pub struct SquareSampler {
    width: u32,
    height: u32,
    n: u32,
    n2: u32,
    pub max_depth: u32,
}

/// The cells of one pixel, in order of their sample index.
pub struct SquareSamplerIter {
    x: u32,
    y: u32,
    sample: u32,
    n: u32,
    n2: u32,
}

/// The grid cell `(column, row)` of sample `k` on an `n`-by-`n` grid.
pub open spec fn cell_of(k: int, n: int) -> (int, int) {
    (k % n, k / n)
}

impl SquareSampler {
    pub closed spec fn wf(&self) -> bool {
        self.n2 == self.n * self.n
    }

    pub closed spec fn spec_max_depth(&self) -> nat {
        self.max_depth as nat
    }

    pub closed spec fn spec_n(&self) -> nat {
        self.n as nat
    }

    pub closed spec fn spec_width(&self) -> nat {
        self.width as nat
    }

    pub closed spec fn spec_height(&self) -> nat {
        self.height as nat
    }

    pub fn new(config: SamplerConfig, image: &Image) -> (r: Self)
        requires
            config.n * config.n <= u32::MAX,
        ensures
            r.wf(),
            r.spec_n() == config.n,
            r.spec_max_depth() == config.max_depth,
            r.spec_width() == image.width,
            r.spec_height() == image.height,
    {
        Self {
            width: image.width,
            height: image.height,
            n: config.n,
            n2: config.n * config.n,
            max_depth: config.max_depth,
        }
    }

    /// Samples per pixel.
    pub fn samples(&self) -> (r: u32)
        requires
            self.wf(),
        ensures
            r == self.spec_n() * self.spec_n(),
    {
        self.n2
    }

    /// Samples per axis.
    pub fn n(&self) -> (r: u32)
        ensures
            r == self.spec_n(),
    {
        self.n
    }

    /// Width of the image in pixels.
    pub fn width(&self) -> (r: u32)
        ensures
            r == self.spec_width(),
    {
        self.width
    }

    /// Height of the image in pixels.
    pub fn height(&self) -> (r: u32)
        ensures
            r == self.spec_height(),
    {
        self.height
    }

    /// The cells of pixel `(x, y)`, from sample 0 on.
    pub fn iter(&self, x: u32, y: u32) -> (r: SquareSamplerIter)
        requires
            self.wf(),
        ensures
            r.wf(),
            r@ == (x as int, y as int, 0int, self.spec_n() as int),
    {
        SquareSamplerIter { x, y, sample: 0, n: self.n, n2: self.n2 }
    }
}

impl View for SquareSamplerIter {
    /// Pixel column and row, index of the next sample, and samples per axis.
    type V = (int, int, int, int);

    closed spec fn view(&self) -> (int, int, int, int) {
        (self.x as int, self.y as int, self.sample as int, self.n as int)
    }
}

impl SquareSamplerIter {
    pub closed spec fn wf(&self) -> bool {
        &&& self.n2 == self.n * self.n
        &&& self.sample <= self.n2
    }

    /// The grid cell `(i, j)` of the next sample, with `0 <= i, j < n`, or
    /// `None` once all `n * n` samples have been handed out.
    pub fn next_cell(&mut self) -> (r: Option<(u32, u32)>)
        requires
            old(self).wf(),
        ensures
            final(self).wf(),
            old(self)@.2 == old(self)@.3 * old(self)@.3 ==> r is None && final(self)@ == old(self)@,
            old(self)@.2 < old(self)@.3 * old(self)@.3 ==> {
                &&& r == Some(
                    (
                        cell_of(old(self)@.2, old(self)@.3).0 as u32,
                        cell_of(old(self)@.2, old(self)@.3).1 as u32,
                    ),
                )
                &&& cell_of(old(self)@.2, old(self)@.3).0 < old(self)@.3
                &&& cell_of(old(self)@.2, old(self)@.3).1 < old(self)@.3
                &&& final(self)@ == (old(self)@.0, old(self)@.1, old(self)@.2 + 1, old(self)@.3)
            },
    {
        if self.sample == self.n2 {
            None
        } else {
            let i = self.sample % self.n;
            let j = self.sample / self.n;
            proof {
                let (k, n) = (self.sample as int, self.n as int);
                assert(j < n) by (nonlinear_arith)
                    requires
                        k < n * n,
                        n > 0,
                        j == k / n,
                ;
            }
            self.sample = self.sample + 1;
            Some((i, j))
        }
    }
}

} // verus!
