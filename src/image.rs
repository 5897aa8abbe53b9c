//! The framebuffer and the order in which its pixels are visited.

use crate::color::Rgb;
use vstd::prelude::*;

verus! {

/// Where the image goes and how large it is.
#[derive(Debug, Clone)]
pub struct ImageConfig {
    pub filename: String,
    pub width: u32,
    pub height: u32,
}

/// A row-major buffer of RGB pixels, filled from the top row down.
pub struct Image {
    pub filename: String,
    pub width: u32,
    pub height: u32,
    /// Three bytes for each pixel written so far.
    pub data: Vec<u8>,
}

/// Visits the pixels of an image, top row first, each row left to right.
pub struct ImageIter {
    width: u32,
    x: u32,
    y: i64,
}

impl Image {
    /// An image of the configured size with no pixels written yet.
    pub fn new(config: ImageConfig) -> (r: Image)
        ensures
            r.filename == config.filename,
            r.width == config.width,
            r.height == config.height,
            r.data@ == Seq::<u8>::empty(),
    {
        let data: Vec<u8> = Vec::new();
        Image { filename: config.filename, width: config.width, height: config.height, data }
    }

    /// The pixel positions in the order in which pixels are added.
    pub fn iter(&self) -> (r: ImageIter)
        requires
            self.width > 0,
            self.height > 0,
        ensures
            r.wf(),
            r@ == (self.width as int, 0int, self.height - 1),
    {
        ImageIter { width: self.width, x: 0, y: (self.height - 1) as i64 }
    }

    /// Appends the red, green and blue bytes of `color`.
    pub fn add_pixel(&mut self, color: Rgb)
        ensures
            final(self).data@ == old(self).data@ + color.0@,
            final(self).filename == old(self).filename,
            final(self).width == old(self).width,
            final(self).height == old(self).height,
    {
        self.data.push(color.r());
        self.data.push(color.g());
        self.data.push(color.b());
        assert(self.data@ =~= old(self).data@ + color.0@);
    }
}

impl View for ImageIter {
    /// Row width, then the column and row of the next pixel; the row is
    /// negative once every pixel has been visited.
    type V = (int, int, int);

    closed spec fn view(&self) -> (int, int, int) {
        (self.width as int, self.x as int, self.y as int)
    }
}

impl ImageIter {
    pub closed spec fn wf(&self) -> bool {
        &&& self.width > 0
        &&& self.x < self.width
        &&& -1 <= self.y <= u32::MAX
    }

    /// The next pixel position, or `None` after the bottom row.
    pub fn next_pixel(&mut self) -> (r: Option<(u32, u32)>)
        requires
            old(self).wf(),
        ensures
            final(self).wf(),
            old(self)@.2 < 0 ==> r is None && final(self)@ == old(self)@,
            old(self)@.2 >= 0 ==> {
                &&& r == Some((old(self)@.1 as u32, old(self)@.2 as u32))
                &&& final(self)@ == (if old(self)@.1 + 1 < old(self)@.0 {
                    (old(self)@.0, old(self)@.1 + 1, old(self)@.2)
                } else {
                    (old(self)@.0, 0, old(self)@.2 - 1)
                })
            },
    {
        if self.y < 0 {
            None
        } else {
            let ret = Some((self.x, self.y as u32));
            proof {
                let (x, w) = (self.x as int, self.width as int);
                if x + 1 < w {
                    vstd::arithmetic::div_mod::lemma_small_mod((x + 1) as nat, w as nat);
                } else {
                    vstd::arithmetic::div_mod::lemma_mod_self_0(w);
                }
            }
            self.x = (self.x + 1) % self.width;
            if self.x == 0 {
                self.y = self.y - 1;
            }
            ret
        }
    }
}

} // verus!
