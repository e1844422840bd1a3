//! Materials whose data is not numeric colour, and the texture store that
//! textured materials sample from.
use vstd::prelude::*;
use image::DynamicImage;
use crate::frame::Rgb8;

verus! {

/// Material that shows the surface normal as a colour; it has no parameters.
#[derive(Clone, Copy, Debug, PartialEq, Eq, Structural)]
pub struct Normal;

#[verifier::external_type_specification]
#[verifier::external_body]
pub struct ExDynamicImage(image::DynamicImage);

/// Width, in pixels, of a decoded image.
pub uninterp spec fn image_width(img: DynamicImage) -> nat;

/// Height, in pixels, of a decoded image.
pub uninterp spec fn image_height(img: DynamicImage) -> nat;

/// Red, green and blue bytes of each pixel of a decoded image, keyed by
/// column and row, as the image converts them to 8-bit RGBA.
pub uninterp spec fn texels(img: DynamicImage) -> Map<(int, int), (u8, u8, u8)>;

/// Relies on `DynamicImage::width`: the width of the image.
pub assume_specification[ image::DynamicImage::width ](img: &DynamicImage) -> (r: u32)
    ensures
        r == image_width(*img),
;

/// Relies on `DynamicImage::height`: the height of the image.
pub assume_specification[ image::DynamicImage::height ](img: &DynamicImage) -> (r: u32)
    ensures
        r == image_height(*img),
;

/// Relies on `GenericImageView::get_pixel` of `DynamicImage`: the pixel at
/// column `x` and row `y`, as 8-bit RGBA; it panics outside the image.
#[verifier::external_body]
fn pixel_at(img: &DynamicImage, x: u32, y: u32) -> (r: Rgb8)
    requires
        x < image_width(*img),
        y < image_height(*img),
    ensures
        (r.r, r.g, r.b) == texels(*img)[(x as int, y as int)],
{
    let p = image::GenericImageView::get_pixel(img, x, y);
    Rgb8 { r: p.0[0], g: p.0[1], b: p.0[2] }
}

/// A decoded image that repeats in both directions: every integer pair of
/// coordinates names a pixel of it.
pub struct Texture {
    pub image: DynamicImage,
}

impl Texture {
    /// The image has at least one pixel.
    pub open spec fn wf(self) -> bool {
        image_width(self.image) > 0 && image_height(self.image) > 0
    }

    /// The colour at column `x` and row `y` of the endless tiling.
    pub open spec fn texel_spec(self, x: int, y: int) -> (u8, u8, u8) {
        texels(self.image)[(x % image_width(self.image) as int, y % image_height(self.image) as int)]
    }

    /// A texture over `image`; `None` when the image has no pixel.
    pub fn new(image: DynamicImage) -> (r: Option<Texture>)
        ensures
            r is Some <==> image_width(image) > 0 && image_height(image) > 0,
            r is Some ==> r->0.image == image,
    {
        if image.width() == 0 || image.height() == 0 {
            None
        } else {
            Some(Texture { image })
        }
    }

    /// Width of one tile, in pixels.
    pub fn width(&self) -> (r: u32)
        ensures
            r == image_width(self.image),
    {
        self.image.width()
    }

    /// Height of one tile, in pixels.
    pub fn height(&self) -> (r: u32)
        ensures
            r == image_height(self.image),
    {
        self.image.height()
    }

    /// The colour at column `x` and row `y`, wrapping coordinates that lie
    /// outside the image back into it.
    pub fn texel(&self, x: i64, y: i64) -> (r: Rgb8)
        requires
            self.wf(),
        ensures
            (r.r, r.g, r.b) == self.texel_spec(x as int, y as int),
    {
        let w = self.image.width();
        let h = self.image.height();
        let u = wrap(x, w);
        let v = wrap(y, h);
        pixel_at(&self.image, u, v)
    }
}

/// `x` taken modulo `n`, in `0..n`.
fn wrap(x: i64, n: u32) -> (r: u32)
    requires
        n > 0,
    ensures
        r == (x as int) % (n as int),
        r < n,
{
    match x.checked_rem_euclid(n as i64) {
        Some(m) => m as u32,
        None => 0,
    }
}

} // verus!
