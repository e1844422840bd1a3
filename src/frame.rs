//! Layout of an RGBA8 framebuffer: row-major, four bytes per pixel.
use vstd::prelude::*;

verus! {

/// Bytes that one pixel occupies in the framebuffer (red, green, blue, alpha).
pub const BYTES_PER_PIXEL: usize = 4;

/// Width and height, in pixels, of a row-major RGBA8 framebuffer.
#[derive(Clone, Copy, Debug, PartialEq, Eq, Structural)]
pub struct FrameLayout {
    pub width: u32,
    pub height: u32,
}

/// An 8-bit colour, as stored in the first three bytes of a pixel.
#[derive(Clone, Copy, Debug, PartialEq, Eq, Structural)]
pub struct Rgb8 {
    pub r: u8,
    pub g: u8,
    pub b: u8,
}

impl FrameLayout {
    /// Number of pixels in the frame.
    pub open spec fn pixels(self) -> nat {
        self.width as nat * self.height as nat
    }

    /// Number of bytes in the frame.
    pub open spec fn bytes(self) -> nat {
        BYTES_PER_PIXEL as nat * self.pixels()
    }

    /// A frame has at least one pixel, and its byte length is addressable.
    pub open spec fn wf(self) -> bool {
        &&& self.width > 0
        &&& self.height > 0
        &&& self.bytes() <= usize::MAX
    }

    /// Column and row of the pixel at a flat index.
    pub open spec fn coords_spec(self, index: int) -> (int, int) {
        (index % self.width as int, index / self.width as int)
    }

    /// Flat index of the pixel at column `x` and row `y`.
    pub open spec fn index_spec(self, x: int, y: int) -> int {
        y * self.width as int + x
    }

    /// A layout of `width` by `height` pixels; `None` when either is zero or
    /// the frame's bytes cannot be addressed.
    pub fn new(width: u32, height: u32) -> (r: Option<FrameLayout>)
        ensures
            r is Some <==> (FrameLayout { width, height }).wf(),
            r is Some ==> r->0 == (FrameLayout { width, height }),
    {
        if width == 0 || height == 0 {
            return None;
        }
        let w = width as usize;
        let h = height as usize;
        match w.checked_mul(h) {
            None => None,
            Some(n) => match n.checked_mul(BYTES_PER_PIXEL) {
                None => None,
                Some(_) => Some(FrameLayout { width, height }),
            },
        }
    }

    /// Number of pixels in the frame.
    pub fn pixel_count(&self) -> (r: usize)
        requires
            self.wf(),
        ensures
            r == self.pixels(),
    {
        proof {
            lemma_pixels_fit(*self);
        }
        self.width as usize * self.height as usize
    }

    /// Number of bytes in the frame.
    pub fn byte_len(&self) -> (r: usize)
        requires
            self.wf(),
        ensures
            r == self.bytes(),
    {
        proof {
            lemma_pixels_fit(*self);
        }
        BYTES_PER_PIXEL * (self.width as usize * self.height as usize)
    }

    /// Column and row of the pixel at flat index `index`.
    pub fn coords_of(&self, index: usize) -> (r: (u32, u32))
        requires
            self.wf(),
            index < self.pixels(),
        ensures
            (r.0 as int, r.1 as int) == self.coords_spec(index as int),
            r.0 < self.width,
            r.1 < self.height,
    {
        let w = self.width as usize;
        proof {
            lemma_row_bound(*self, index as int);
        }
        ((index % w) as u32, (index / w) as u32)
    }

    /// Flat index of the pixel at column `x` and row `y`.
    pub fn index_of(&self, x: u32, y: u32) -> (r: usize)
        requires
            self.wf(),
            x < self.width,
            y < self.height,
        ensures
            r == self.index_spec(x as int, y as int),
            r < self.pixels(),
    {
        proof {
            lemma_pixels_fit(*self);
            lemma_index_bound(*self, x as int, y as int);
        }
        y as usize * self.width as usize + x as usize
    }
}

proof fn lemma_pixels_fit(l: FrameLayout)
    requires
        l.wf(),
    ensures
        l.pixels() <= usize::MAX,
{
}

proof fn lemma_row_bound(l: FrameLayout, index: int)
    requires
        l.wf(),
        0 <= index < l.pixels(),
    ensures
        0 <= index % (l.width as int) < l.width,
        0 <= index / (l.width as int) < l.height,
{
    let w = l.width as int;
    let h = l.height as int;
    assert(index / w < h) by (nonlinear_arith)
        requires 0 <= index < w * h, w > 0;
    assert(index / w >= 0) by (nonlinear_arith)
        requires 0 <= index, w > 0;
}

proof fn lemma_index_bound(l: FrameLayout, x: int, y: int)
    requires
        l.wf(),
        0 <= x < l.width,
        0 <= y < l.height,
    ensures
        0 <= l.index_spec(x, y) < l.pixels(),
{
    let w = l.width as int;
    let h = l.height as int;
    assert(0 <= y * w + x < w * h) by (nonlinear_arith)
        requires 0 <= x < w, 0 <= y < h;
}

/// A flat index converted to a column and row and back gives the index one
/// started from.
pub proof fn lemma_index_of_coords(l: FrameLayout, index: int)
    requires
        l.wf(),
        0 <= index < l.pixels(),
    ensures
        l.index_spec(l.coords_spec(index).0, l.coords_spec(index).1) == index,
{
    let w = l.width as int;
    vstd::arithmetic::div_mod::lemma_fundamental_div_mod(index, w);
    vstd::arithmetic::mul::lemma_mul_is_commutative(w, index / w);
}

/// A column and row converted to a flat index and back gives the pair one
/// started from.
pub proof fn lemma_coords_of_index(l: FrameLayout, x: int, y: int)
    requires
        l.wf(),
        0 <= x < l.width,
        0 <= y < l.height,
    ensures
        l.coords_spec(l.index_spec(x, y)) == (x, y),
{
    let w = l.width as int;
    vstd::arithmetic::div_mod::lemma_fundamental_div_mod_converse(y * w + x, w, y, x);
}

/// The byte that stores channel `k` (0 red, 1 green, 2 blue) of a colour.
pub open spec fn channel(c: Rgb8, k: int) -> u8 {
    if k == 0 {
        c.r
    } else if k == 1 {
        c.g
    } else {
        c.b
    }
}

/// `bytes` with the first `colors.len()` pixels given those colours: the
/// red, green and blue bytes of each are replaced, its alpha byte and every
/// byte after the last of them are kept.
pub open spec fn painted(bytes: Seq<u8>, colors: Seq<Rgb8>) -> Seq<u8> {
    Seq::new(
        bytes.len(),
        |i: int|
            if i / 4 < colors.len() && i % 4 < 3 {
                channel(colors[i / 4], i % 4)
            } else {
                bytes[i]
            },
    )
}

/// Writes `colors[j]` into pixel `j` of `pixels`, a run of RGBA8 pixels,
/// leaving alpha bytes untouched.
pub fn paint_rgb(pixels: &mut [u8], colors: &[Rgb8])
    requires
        BYTES_PER_PIXEL * colors@.len() <= old(pixels)@.len(),
    ensures
        final(pixels)@ == painted(old(pixels)@, colors@),
{
    let n = colors.len();
    let len = pixels.len();
    let mut j: usize = 0;
    while j < n
        invariant
            0 <= j <= n,
            n == colors@.len(),
            BYTES_PER_PIXEL * n <= old(pixels)@.len(),
            pixels@.len() == old(pixels)@.len(),
            len == pixels@.len(),
            forall|i: int|
                0 <= i < pixels@.len() ==> pixels@[i] == (if i / 4 < j && i % 4 < 3 {
                    channel(colors@[i / 4], i % 4)
                } else {
                    old(pixels)@[i]
                }),
        decreases n - j,
    {
        let c = colors[j];
        let base = BYTES_PER_PIXEL * j;
        pixels[base] = c.r;
        pixels[base + 1] = c.g;
        pixels[base + 2] = c.b;
        j = j + 1;
    }
    assert(pixels@ =~= painted(old(pixels)@, colors@));
}

} // verus!
