//! Image textures: decoded pixel data, loaded on first use, sampled by
//! nearest texel.

use crate::color::Rgb;
use vstd::prelude::*;

verus! {

/// Bytes per pixel of a decoded RGB image.
pub const BYTES_PER_PIXEL: usize = 3;

/// A texture read from an image file on its first sample; until then only
/// the file name is known.
#[derive(Debug, Clone)]
pub enum ImageTexture {
    U(ImageTextureUninit),
    /// Loaded; `None` when the file could not be read.
    I(Option<ImageTextureInit>),
}

/// The file an image texture is read from.
#[derive(Debug, Clone)]
pub struct ImageTextureUninit {
    filename: String,
}

/// Decoded pixels: rows top-down, `bytes_per_row` bytes apart, three bytes
/// for each pixel.
#[derive(Debug, Clone)]
pub struct ImageTextureInit {
    width: usize,
    height: usize,
    bytes_per_row: usize,
    data: Vec<u8>,
}

impl View for ImageTextureUninit {
    type V = Seq<char>;

    closed spec fn view(&self) -> Seq<char> {
        self.filename@
    }
}

impl View for ImageTextureInit {
    /// Width, height, bytes per row, and the pixel bytes.
    type V = (nat, nat, nat, Seq<u8>);

    closed spec fn view(&self) -> Self::V {
        (self.width as nat, self.height as nat, self.bytes_per_row as nat, self.data@)
    }
}

/// The layout fits: at least one pixel, every row holds its pixels, and
/// every row lies inside the data.
pub open spec fn layout_fits(width: nat, height: nat, bytes_per_row: nat, len: nat) -> bool {
    &&& width > 0
    &&& height > 0
    &&& width * 3 <= bytes_per_row
    &&& height * bytes_per_row <= len
}

/// `a` clamped into `[0, n - 1]`.
pub open spec fn clamp_below(a: int, n: nat) -> int {
    if a < n {
        a
    } else {
        n - 1
    }
}

/// Offset of the first byte of texel `(i, j)`, each clamped to the image.
pub open spec fn texel_offset(t: (nat, nat, nat, Seq<u8>), i: int, j: int) -> int {
    clamp_below(j, t.1) * t.2 + clamp_below(i, t.0) * 3
}

/// Row `j` starts inside the data and has room for every pixel of the row.
proof fn lemma_texel_in_bounds(width: nat, height: nat, bytes_per_row: nat, len: nat, i: nat, j: nat)
    requires
        layout_fits(width, height, bytes_per_row, len),
        i < width,
        j < height,
    ensures
        j * bytes_per_row + i * 3 + 3 <= len,
{
    assert(j * bytes_per_row + bytes_per_row <= height * bytes_per_row) by (nonlinear_arith)
        requires
            j < height,
    ;
    assert(i * 3 + 3 <= width * 3) by (nonlinear_arith)
        requires
            i < width,
    ;
}

impl ImageTextureInit {
    /// Pixels decoded from an image, when the layout fits the data.
    pub fn new(width: usize, height: usize, bytes_per_row: usize, data: Vec<u8>) -> (r: Option<
        Self,
    >)
        ensures
            r is Some <==> layout_fits(width as nat, height as nat, bytes_per_row as nat, data@.len()),
            r matches Some(t) ==> t@ == (width as nat, height as nat, bytes_per_row as nat, data@)
                && t.wf(),
    {
        if width == 0 || height == 0 {
            return None;
        }
        let row = match width.checked_mul(BYTES_PER_PIXEL) {
            Some(row) => row,
            None => return None,
        };
        let len = data.len();
        let total = match height.checked_mul(bytes_per_row) {
            Some(total) => total,
            None => return None,
        };
        if row <= bytes_per_row && total <= len {
            Some(ImageTextureInit { width, height, bytes_per_row, data })
        } else {
            None
        }
    }

    pub closed spec fn wf(&self) -> bool {
        &&& layout_fits(self@.0, self@.1, self@.2, self@.3.len())
        &&& self@.3.len() <= usize::MAX
    }

    pub fn width(&self) -> (r: usize)
        ensures
            r == self@.0,
    {
        self.width
    }

    pub fn height(&self) -> (r: usize)
        ensures
            r == self@.1,
    {
        self.height
    }

    /// The bytes of texel `(i, j)`, column `i` from the left and row `j`
    /// from the top, each clamped to the image.
    pub fn texel(&self, i: usize, j: usize) -> (r: Rgb)
        requires
            self.wf(),
        ensures
            r.0@ == self@.3.subrange(
                texel_offset(self@, i as int, j as int),
                texel_offset(self@, i as int, j as int) + 3,
            ),
    {
        let i = if i < self.width { i } else { self.width - 1 };
        let j = if j < self.height { j } else { self.height - 1 };
        proof {
            lemma_texel_in_bounds(self.width as nat, self.height as nat, self.bytes_per_row as nat, self.data@.len(), i as nat, j as nat);
        }
        assert(j * self.bytes_per_row <= j * self.bytes_per_row + i * 3);
        let start = j * self.bytes_per_row + i * 3;
        let r = Rgb::new(self.data[start], self.data[start + 1], self.data[start + 2]);
        assert(r.0@ =~= self@.3.subrange(start as int, start + 3));
        r
    }
}

impl ImageTexture {
    pub fn new(filename: String) -> (r: ImageTexture)
        ensures
            r matches ImageTexture::U(u) && u@ == filename@,
    {
        ImageTexture::U(ImageTextureUninit { filename })
    }

    /// The file to read, while the texture is not loaded yet.
    pub fn pending_file(&self) -> (r: Option<&String>)
        ensures
            self matches ImageTexture::U(u) ==> r matches Some(f) && f@ == u@,
            self is I ==> r is None,
    {
        match self {
            ImageTexture::U(u) => Some(&u.filename),
            ImageTexture::I(_) => None,
        }
    }

    /// Records the outcome of reading the file; a loaded texture keeps what
    /// it has.
    pub fn load(&mut self, loaded: Option<ImageTextureInit>)
        ensures
            *old(self) is U ==> *final(self) == ImageTexture::I(loaded),
            *old(self) is I ==> *final(self) == *old(self),
    {
        if let ImageTexture::U(_) = self {
            *self = ImageTexture::I(loaded);
        }
    }

    /// The texels are valid wherever the texture is loaded.
    pub open spec fn wf(&self) -> bool {
        self matches ImageTexture::I(Some(t)) ==> t.wf()
    }

    /// The bytes of texel `(i, j)` of a loaded texture, or `None` when its
    /// file could not be read.
    pub fn texel(&self, i: usize, j: usize) -> (r: Option<Rgb>)
        requires
            self.wf(),
            self is I,
        ensures
            self matches ImageTexture::I(None) ==> r is None,
            self matches ImageTexture::I(Some(t)) ==> r matches Some(c) && c.0@ == t@.3.subrange(
                texel_offset(t@, i as int, j as int),
                texel_offset(t@, i as int, j as int) + 3,
            ),
    {
        match self {
            ImageTexture::I(Some(t)) => Some(t.texel(i, j)),
            _ => None,
        }
    }
}

} // verus!
