//! The image abstraction layer: the error vocabulary, the decoder
//! capability with its derived partial-region decode, the generic image
//! capability, the row-major pixel iterators and the windowed view.

use vstd::prelude::*;

use crate::animation::Frame;
use crate::animation::Frames;
use crate::buffer::ImageBuffer;
use crate::color::ColorType;
use crate::color::Rgba;
use crate::color::bits_per_pixel;
use crate::color::spec_bytes_per_pixel;
use crate::color::spec_sample_depth;
use crate::traits::Pixel;

verus! {

/// An enumeration of image errors.
#[derive(Clone, Debug, PartialEq, Eq)]
pub enum ImageError {
    /// The image is not formatted properly.
    FormatError(String),
    /// The image's dimensions are either too small or too large.
    DimensionError,
    /// The decoder does not support this image format.
    UnsupportedError(String),
    /// The decoder does not support this color type.
    UnsupportedColor(ColorType),
    /// Not enough data was provided to the decoder to decode the image.
    NotEnoughData,
    /// The underlying byte source failed; its message is carried along.
    IoError(String),
    /// The end of the image has been reached.
    ImageEnd,
}

impl ImageError {
    /// Converts a failed byte source's message into an image error: any
    /// failure of the underlying source becomes `IoError`.
    pub fn from_error(detail: String) -> (r: ImageError)
        ensures
            r == ImageError::IoError(detail),
    {
        ImageError::IoError(detail)
    }
}

/// Result of an image decoding/encoding process.
pub type ImageResult<T> = Result<T, ImageError>;

/// Result of a decoding process, tagged by the width of one sample.
pub enum DecodingResult {
    /// A vector of unsigned bytes.
    U8(Vec<u8>),
    /// A vector of unsigned words.
    U16(Vec<u16>),
}

/// Storage a caller hands to a decoding process, tagged by the width of
/// one sample; the caller gets it back filled.
pub enum DecodingBuffer {
    /// A vector of unsigned bytes.
    U8(Vec<u8>),
    /// A vector of unsigned words.
    U16(Vec<u16>),
}

/// An enumeration of supported image formats.
/// Not all formats support both encoding and decoding.
#[derive(Clone, Copy, Debug, PartialEq, Eq, Structural)]
pub enum ImageFormat {
    /// An image in PNG format.
    PNG,
    /// An image in JPEG format.
    JPEG,
    /// An image in GIF format.
    GIF,
    /// An image in WEBP format.
    WEBP,
    /// An image in PPM format.
    PPM,
    /// An image in TIFF format.
    TIFF,
    /// An image in TGA format.
    TGA,
}

/// A trait for manipulating images: a two-dimensional grid of pixels with
/// indexed reads, overwrites and composited writes. The four indexing
/// operations demand in-bounds coordinates from the caller.
pub trait GenericImage: Sized {
    /// The type of pixel.
    type Pixel: Pixel;

    /// The width of the image.
    spec fn spec_width(&self) -> u32;

    /// The height of the image.
    spec fn spec_height(&self) -> u32;

    /// The horizontal offset of the image's bounding rectangle; a top-level
    /// buffer sits at offset zero.
    spec fn spec_xoffset(&self) -> u32;

    /// The vertical offset of the image's bounding rectangle.
    spec fn spec_yoffset(&self) -> u32;

    /// The pixel grid: the pixel in column `x` of row `y`.
    spec fn pix(&self, x: int, y: int) -> Self::Pixel;

    /// The implementer's internal well-formedness.
    spec fn inv(&self) -> bool;

    /// Returns the width and height of this image.
    fn dimensions(&self) -> (r: (u32, u32))
        requires
            self.inv(),
        ensures
            r == (self.spec_width(), self.spec_height()),
    ;

    /// Returns the bounding rectangle of this image.
    fn bounds(&self) -> (r: (u32, u32, u32, u32))
        requires
            self.inv(),
        ensures
            r == (self.spec_xoffset(), self.spec_yoffset(), self.spec_width(),
            self.spec_height()),
    ;

    /// Returns the pixel located at `(x, y)`; the coordinates must be in
    /// bounds.
    fn get_pixel(&self, x: u32, y: u32) -> (p: Self::Pixel)
        requires
            self.inv(),
            x < self.spec_width(),
            y < self.spec_height(),
        ensures
            p == self.pix(x as int, y as int),
    ;

    /// Overwrites the pixel at `(x, y)`; the coordinates must be in bounds.
    fn put_pixel(&mut self, x: u32, y: u32, pixel: Self::Pixel)
        requires
            old(self).inv(),
            x < old(self).spec_width(),
            y < old(self).spec_height(),
        ensures
            final(self).inv(),
            final(self).spec_width() == old(self).spec_width(),
            final(self).spec_height() == old(self).spec_height(),
            final(self).spec_xoffset() == old(self).spec_xoffset(),
            final(self).spec_yoffset() == old(self).spec_yoffset(),
            final(self).pix(x as int, y as int) == pixel,
            forall|i: int, j: int|
                !(i == x as int && j == y as int) ==> #[trigger] final(self).pix(i, j)
                    == old(self).pix(i, j),
    ;

    /// Composites `pixel` over the pixel at `(x, y)` by the pixel type's
    /// blending rule; the coordinates must be in bounds.
    fn blend_pixel(&mut self, x: u32, y: u32, pixel: Self::Pixel)
        requires
            old(self).inv(),
            x < old(self).spec_width(),
            y < old(self).spec_height(),
        ensures
            final(self).inv(),
            final(self).spec_width() == old(self).spec_width(),
            final(self).spec_height() == old(self).spec_height(),
            final(self).spec_xoffset() == old(self).spec_xoffset(),
            final(self).spec_yoffset() == old(self).spec_yoffset(),
            final(self).pix(x as int, y as int) == old(self).pix(x as int,
            y as int).spec_blend(pixel),
            forall|i: int, j: int|
                !(i == x as int && j == y as int) ==> #[trigger] final(self).pix(i, j)
                    == old(self).pix(i, j),
    ;

}

/// Returns an iterator over the pixels of an image: the coordinates of
/// each pixel along with its value, row by row from `(0, 0)`. It works for
/// any implementer of the image capability.
pub fn pixels<'a, I: GenericImage>(image: &'a I) -> (it: Pixels<'a, I>)
    requires
        image.inv(),
    ensures
        it.inv(),
        it.img() == image,
        it.spec_width() == image.spec_width(),
        it.spec_height() == image.spec_height(),
        it.pos() == 0,
{
    let (width, height) = image.dimensions();
    Pixels { image, x: 0, y: 0, width, height }
}

/// Returns an iterator over the coordinates of an image, row by row from
/// `(0, 0)`; mutate through `put_pixel` or `blend_pixel` inside the loop
/// that consumes it.
pub fn pixels_mut<I: GenericImage>(image: &I) -> (it: MutPixels)
    requires
        image.inv(),
    ensures
        it.inv(),
        it.spec_width() == image.spec_width(),
        it.spec_height() == image.spec_height(),
        it.pos() == 0,
{
    let (width, height) = image.dimensions();
    MutPixels { x: 0, y: 0, width, height }
}

/// Immutable pixel iterator: a lazy row-major traversal over a borrowed
/// image.
pub struct Pixels<'a, I> {
    image: &'a I,
    x: u32,
    y: u32,
    width: u32,
    height: u32,
}

impl<'a, I> Pixels<'a, I> {
    /// The image being traversed.
    pub closed spec fn img(&self) -> &'a I {
        self.image
    }

    /// The cached width of the traversal.
    pub closed spec fn spec_width(&self) -> u32 {
        self.width
    }

    /// The cached height of the traversal.
    pub closed spec fn spec_height(&self) -> u32 {
        self.height
    }

    /// How many items have been yielded so far.
    pub closed spec fn pos(&self) -> int {
        self.y as int * self.width as int + self.x as int
    }

    /// How many items the whole traversal yields.
    pub open spec fn total(&self) -> int {
        self.spec_width() as int * self.spec_height() as int
    }
}

impl<'a, I: GenericImage> Pixels<'a, I> {
    /// The iterator's well-formedness.
    pub closed spec fn inv(&self) -> bool {
        &&& self.image.inv()
        &&& self.width == self.image.spec_width()
        &&& self.height == self.image.spec_height()
        &&& self.x <= self.width
        &&& self.y <= self.height
    }

    /// Yields the next `(x, y, pixel)` triple of the row-major traversal,
    /// or `None` once all `width * height` items have been yielded.
    pub fn next(&mut self) -> (r: Option<(u32, u32, I::Pixel)>)
        requires
            old(self).inv(),
        ensures
            final(self).inv(),
            final(self).img() == old(self).img(),
            final(self).spec_width() == old(self).spec_width(),
            final(self).spec_height() == old(self).spec_height(),
            old(self).pos() < old(self).total() ==> {
                &&& final(self).pos() == old(self).pos() + 1
                &&& r == Some(
                    (
                        (old(self).pos() % (old(self).spec_width() as int)) as u32,
                        (old(self).pos() / (old(self).spec_width() as int)) as u32,
                        old(self).img().pix(
                            old(self).pos() % (old(self).spec_width() as int),
                            old(self).pos() / (old(self).spec_width() as int),
                        ),
                    ),
                )
            },
            old(self).pos() >= old(self).total() ==> r is None && final(self).pos() == old(
                self,
            ).pos(),
    {
        if self.width == 0 || self.y >= self.height {
            proof {
                vstd::arithmetic::mul::lemma_mul_is_commutative(
                    self.width as int,
                    self.height as int,
                );
            }
            return None;
        }
        if self.x >= self.width {
            self.x = 0;
            self.y = self.y + 1;
            if self.y >= self.height {
                proof {
                    vstd::arithmetic::mul::lemma_mul_is_distributive_add_other_way(
                        self.width as int,
                        old(self).y as int,
                        1,
                    );
                    vstd::arithmetic::mul::lemma_mul_is_commutative(
                        self.width as int,
                        self.height as int,
                    );
                }
                return None;
            }
        }
        proof {
            let w = self.width as int;
            let h = self.height as int;
            if old(self).x >= old(self).width {
                vstd::arithmetic::mul::lemma_mul_is_distributive_add_other_way(
                    w,
                    old(self).y as int,
                    1,
                );
            }
            assert(old(self).pos() == self.y as int * w + self.x as int);
            vstd::arithmetic::div_mod::lemma_fundamental_div_mod_converse(
                old(self).pos(),
                w,
                self.y as int,
                self.x as int,
            );
            assert(self.y as int * w + self.x < w * h) by (nonlinear_arith)
                requires
                    0 <= self.x < w,
                    0 <= (self.y as int) < h,
            ;
        }
        let px = self.image.get_pixel(self.x, self.y);
        let item = (self.x, self.y, px);
        self.x = self.x + 1;
        Some(item)
    }
}

/// Coordinate iterator for mutation: yields each in-bounds `(x, y)` pair
/// once, row by row; the caller mutates through the image's own indexed
/// operations inside the loop.
pub struct MutPixels {
    x: u32,
    y: u32,
    width: u32,
    height: u32,
}

impl MutPixels {
    /// The cached width of the traversal.
    pub closed spec fn spec_width(&self) -> u32 {
        self.width
    }

    /// The cached height of the traversal.
    pub closed spec fn spec_height(&self) -> u32 {
        self.height
    }

    /// How many items have been yielded so far.
    pub closed spec fn pos(&self) -> int {
        self.y as int * self.width as int + self.x as int
    }

    /// How many items the whole traversal yields.
    pub open spec fn total(&self) -> int {
        self.spec_width() as int * self.spec_height() as int
    }

    /// The iterator's well-formedness.
    pub closed spec fn inv(&self) -> bool {
        &&& self.x <= self.width
        &&& self.y <= self.height
    }

    /// Yields the next `(x, y)` pair of the row-major traversal, or `None`
    /// once all `width * height` pairs have been yielded.
    pub fn next(&mut self) -> (r: Option<(u32, u32)>)
        requires
            old(self).inv(),
        ensures
            final(self).inv(),
            final(self).spec_width() == old(self).spec_width(),
            final(self).spec_height() == old(self).spec_height(),
            old(self).pos() < old(self).total() ==> {
                &&& final(self).pos() == old(self).pos() + 1
                &&& r == Some(
                    (
                        (old(self).pos() % (old(self).spec_width() as int)) as u32,
                        (old(self).pos() / (old(self).spec_width() as int)) as u32,
                    ),
                )
            },
            old(self).pos() >= old(self).total() ==> r is None && final(self).pos() == old(
                self,
            ).pos(),
    {
        if self.width == 0 || self.y >= self.height {
            proof {
                vstd::arithmetic::mul::lemma_mul_is_commutative(
                    self.width as int,
                    self.height as int,
                );
            }
            return None;
        }
        if self.x >= self.width {
            self.x = 0;
            self.y = self.y + 1;
            if self.y >= self.height {
                proof {
                    vstd::arithmetic::mul::lemma_mul_is_distributive_add_other_way(
                        self.width as int,
                        old(self).y as int,
                        1,
                    );
                    vstd::arithmetic::mul::lemma_mul_is_commutative(
                        self.width as int,
                        self.height as int,
                    );
                }
                return None;
            }
        }
        proof {
            let w = self.width as int;
            let h = self.height as int;
            if old(self).x >= old(self).width {
                vstd::arithmetic::mul::lemma_mul_is_distributive_add_other_way(
                    w,
                    old(self).y as int,
                    1,
                );
            }
            assert(old(self).pos() == self.y as int * w + self.x as int);
            vstd::arithmetic::div_mod::lemma_fundamental_div_mod_converse(
                old(self).pos(),
                w,
                self.y as int,
                self.x as int,
            );
            assert(self.y as int * w + self.x < w * h) by (nonlinear_arith)
                requires
                    0 <= self.x < w,
                    0 <= (self.y as int) < h,
            ;
        }
        let item = (self.x, self.y);
        self.x = self.x + 1;
        Some(item)
    }
}

/// The position of the pair `(x, y)` in the row-major traversal of a grid
/// of width `w`.
pub open spec fn row_major_pos(w: int, x: int, y: int) -> int {
    y * w + x
}

/// Law: the row-major traversal of a `w` by `h` grid enumerates each
/// in-bounds coordinate pair exactly once. Position `k` holds the pair
/// `(k % w, k / w)`, which is in bounds; distinct positions hold distinct
/// pairs; and the pair `(x, y)` stands at position `y * w + x`.
pub proof fn lemma_row_major_enumeration(w: int, h: int)
    requires
        0 < w,
        0 <= h,
    ensures
        forall|k: int|
            0 <= k < w * h ==> 0 <= #[trigger] (k % w) < w && 0 <= #[trigger] (k / w) < h,
        forall|k1: int, k2: int|
            0 <= k1 < k2 < w * h ==> !(k1 % w == k2 % w && #[trigger] (k1 / w) == #[trigger] (k2
                / w)),
        forall|x: int, y: int|
            0 <= x < w && 0 <= y < h ==> 0 <= #[trigger] row_major_pos(w, x, y) < w * h
                && row_major_pos(w, x, y) % w == x && row_major_pos(w, x, y) / w == y,
{
    assert forall|k: int| 0 <= k < w * h implies 0 <= #[trigger] (k % w) < w && 0 <= #[trigger] (k
        / w) < h by {
        vstd::arithmetic::div_mod::lemma_fundamental_div_mod(k, w);
        vstd::arithmetic::div_mod::lemma_mod_bound(k, w);
        vstd::arithmetic::div_mod::lemma_div_pos_is_pos(k, w);
        assert(k / w < h) by (nonlinear_arith)
            requires
                0 < w,
                k < w * h,
                k == w * (k / w) + k % w,
                0 <= k % w < w,
                0 <= k / w,
        ;
    }
    assert forall|k1: int, k2: int| 0 <= k1 < k2 < w * h implies !(k1 % w == k2 % w && #[trigger] (
    k1 / w) == #[trigger] (k2 / w)) by {
        vstd::arithmetic::div_mod::lemma_fundamental_div_mod(k1, w);
        vstd::arithmetic::div_mod::lemma_fundamental_div_mod(k2, w);
    }
    assert forall|x: int, y: int| 0 <= x < w && 0 <= y < h implies 0 <= #[trigger] row_major_pos(
        w,
        x,
        y,
    ) < w * h && row_major_pos(w, x, y) % w == x && row_major_pos(w, x, y) / w == y by {
        assert(0 <= y * w + x < w * h) by (nonlinear_arith)
            requires
                0 <= x < w,
                0 <= y < h,
        ;
        vstd::arithmetic::div_mod::lemma_fundamental_div_mod_converse(y * w + x, w, y, x);
    }
}


/// A view into another image: a rectangular window at an offset, through
/// which every image operation reads and writes the wrapped image after
/// translating coordinates. The view adds no pixel storage of its own.
pub struct SubImage<I> {
    image: I,
    xoffset: u32,
    yoffset: u32,
    xstride: u32,
    ystride: u32,
}

impl<I: GenericImage> SubImage<I> {
    /// The wrapped image.
    pub closed spec fn spec_inner(&self) -> I {
        self.image
    }

    /// Constructs a new subimage: the window of `width` by `height` pixels
    /// whose top-left corner lies at `(x, y)` of `image`. That the window
    /// stays within the wrapped image's bounds is the caller's
    /// responsibility, as with raw pixel access.
    pub fn new(image: I, x: u32, y: u32, width: u32, height: u32) -> (r: SubImage<I>)
        ensures
            r.spec_inner() == image,
            r.spec_xoffset() == x,
            r.spec_yoffset() == y,
            r.spec_width() == width,
            r.spec_height() == height,
    {
        SubImage { image, xoffset: x, yoffset: y, xstride: width, ystride: height }
    }

    /// Returns a mutable reference to the wrapped image.
    pub fn inner_mut(&mut self) -> (r: &mut I)
        ensures
            *r == old(self).spec_inner(),
            final(self).spec_inner() == *final(r),
            final(self).spec_xoffset() == old(self).spec_xoffset(),
            final(self).spec_yoffset() == old(self).spec_yoffset(),
            final(self).spec_width() == old(self).spec_width(),
            final(self).spec_height() == old(self).spec_height(),
    {
        &mut self.image
    }

    /// Consumes the view and hands the wrapped image back.
    pub fn into_inner(self) -> (r: I)
        ensures
            r == self.spec_inner(),
    {
        self.image
    }

    /// Changes the coordinates of this subimage in place, without touching
    /// the wrapped image.
    pub fn change_bounds(&mut self, x: u32, y: u32, width: u32, height: u32)
        ensures
            final(self).spec_inner() == old(self).spec_inner(),
            final(self).spec_xoffset() == x,
            final(self).spec_yoffset() == y,
            final(self).spec_width() == width,
            final(self).spec_height() == height,
    {
        self.xoffset = x;
        self.yoffset = y;
        self.xstride = width;
        self.ystride = height;
    }

    /// Materializes the window: copies it, pixel by pixel in row-major
    /// order, into a freshly allocated buffer of the window's dimensions.
    pub fn to_image(&self) -> (out: ImageBuffer<I::Pixel>)
        requires
            self.inv(),
            self.spec_width() as int * self.spec_height() as int <= usize::MAX as int,
        ensures
            out.inv(),
            out.spec_width() == self.spec_width(),
            out.spec_height() == self.spec_height(),
            forall|x: int, y: int|
                0 <= x < self.spec_width() && 0 <= y < self.spec_height() ==> #[trigger] out.pix(
                    x,
                    y,
                ) == self.pix(x, y),
    {
        let (w, h) = self.dimensions();
        let mut out = ImageBuffer::<I::Pixel>::new(w, h);
        let mut y: u32 = 0;
        while y < h
            invariant
                y <= h,
                self.inv(),
                w == self.spec_width(),
                h == self.spec_height(),
                out.inv(),
                out.spec_width() == w,
                out.spec_height() == h,
                forall|i: int, j: int|
                    0 <= i < w && 0 <= j < y ==> #[trigger] out.pix(i, j) == self.pix(i, j),
            decreases h - y,
        {
            let mut x: u32 = 0;
            while x < w
                invariant
                    x <= w,
                    y < h,
                    self.inv(),
                    w == self.spec_width(),
                    h == self.spec_height(),
                    out.inv(),
                    out.spec_width() == w,
                    out.spec_height() == h,
                    forall|i: int, j: int|
                        0 <= i < w && 0 <= j < y ==> #[trigger] out.pix(i, j) == self.pix(i, j),
                    forall|i: int|
                        0 <= i < x ==> #[trigger] out.pix(i, y as int) == self.pix(i, y as int),
                decreases w - x,
            {
                let p = self.get_pixel(x, y);
                out.put_pixel(x, y, p);
                x = x + 1;
            }
            y = y + 1;
        }
        out
    }
}

impl<I: GenericImage> GenericImage for SubImage<I> {
    type Pixel = I::Pixel;

    closed spec fn spec_width(&self) -> u32 {
        self.xstride
    }

    closed spec fn spec_height(&self) -> u32 {
        self.ystride
    }

    closed spec fn spec_xoffset(&self) -> u32 {
        self.xoffset
    }

    closed spec fn spec_yoffset(&self) -> u32 {
        self.yoffset
    }

    closed spec fn pix(&self, x: int, y: int) -> I::Pixel {
        self.image.pix(x + self.xoffset as int, y + self.yoffset as int)
    }

    closed spec fn inv(&self) -> bool {
        &&& self.image.inv()
        &&& self.xoffset as int + self.xstride as int <= self.image.spec_width() as int
        &&& self.yoffset as int + self.ystride as int <= self.image.spec_height() as int
    }

    fn dimensions(&self) -> (r: (u32, u32)) {
        (self.xstride, self.ystride)
    }

    fn bounds(&self) -> (r: (u32, u32, u32, u32)) {
        (self.xoffset, self.yoffset, self.xstride, self.ystride)
    }

    fn get_pixel(&self, x: u32, y: u32) -> (p: I::Pixel) {
        self.image.get_pixel(x + self.xoffset, y + self.yoffset)
    }

    fn put_pixel(&mut self, x: u32, y: u32, pixel: I::Pixel) {
        self.image.put_pixel(x + self.xoffset, y + self.yoffset, pixel);
    }

    fn blend_pixel(&mut self, x: u32, y: u32, pixel: I::Pixel) {
        self.image.blend_pixel(x + self.xoffset, y + self.yoffset, pixel);
    }
}

/// Law: the view translates coordinates: pixel `(x, y)` of a subimage is
/// pixel `(x + xoffset, y + yoffset)` of the wrapped image.
pub proof fn lemma_subimage_translates<I: GenericImage>(s: &SubImage<I>, x: int, y: int)
    ensures
        s.pix(x, y) == s.spec_inner().pix(
            x + s.spec_xoffset() as int,
            y + s.spec_yoffset() as int,
        ),
{
}


/// The contract a streaming decoder must satisfy. A decoder knows its
/// dimensions, color type and bytes-per-row, and hands out scanlines one
/// at a time, top to bottom; everything else this library offers on top of
/// it (`is_animated`, `into_frames`, `load_rect`) is derived from these
/// primitives alone.
pub trait ImageDecoder: Sized {
    /// The width of the image.
    spec fn spec_width(&self) -> u32;

    /// The height of the image, which is also the number of scanlines.
    spec fn spec_height(&self) -> u32;

    /// The color type of the decoded samples.
    spec fn spec_colortype(&self) -> ColorType;

    /// The length in bytes of one decoded row.
    spec fn spec_row_len(&self) -> usize;

    /// How many scanlines have been consumed so far.
    spec fn spec_rows_read(&self) -> u32;

    /// The bytes of row `i`, counting rows from zero.
    spec fn row(&self, i: int) -> Seq<u8>;

    /// The implementer's internal well-formedness.
    spec fn inv(&self) -> bool;

    /// Returns a tuple containing the width and height of the image.
    fn dimensions(&mut self) -> (r: ImageResult<(u32, u32)>)
        requires
            old(self).inv(),
        ensures
            final(self).inv(),
            final(self).spec_width() == old(self).spec_width(),
            final(self).spec_height() == old(self).spec_height(),
            final(self).spec_colortype() == old(self).spec_colortype(),
            final(self).spec_row_len() == old(self).spec_row_len(),
            forall|i: int| #[trigger] final(self).row(i) == old(self).row(i),
            final(self).spec_rows_read() == old(self).spec_rows_read(),
            r matches Ok(t) ==> t == (old(self).spec_width(), old(self).spec_height()),
    ;

    /// Returns the color type of the image, e.g. RGB(8) for 8-bit RGB.
    fn colortype(&mut self) -> (r: ImageResult<ColorType>)
        requires
            old(self).inv(),
        ensures
            final(self).inv(),
            final(self).spec_width() == old(self).spec_width(),
            final(self).spec_height() == old(self).spec_height(),
            final(self).spec_colortype() == old(self).spec_colortype(),
            final(self).spec_row_len() == old(self).spec_row_len(),
            forall|i: int| #[trigger] final(self).row(i) == old(self).row(i),
            final(self).spec_rows_read() == old(self).spec_rows_read(),
            r matches Ok(c) ==> c == old(self).spec_colortype(),
    ;

    /// Returns the length in bytes of one decoded row of the image; a row
    /// holds at least `width` times bytes-per-pixel bytes.
    fn row_len(&mut self) -> (r: ImageResult<usize>)
        requires
            old(self).inv(),
        ensures
            final(self).inv(),
            final(self).spec_width() == old(self).spec_width(),
            final(self).spec_height() == old(self).spec_height(),
            final(self).spec_colortype() == old(self).spec_colortype(),
            final(self).spec_row_len() == old(self).spec_row_len(),
            forall|i: int| #[trigger] final(self).row(i) == old(self).row(i),
            final(self).spec_rows_read() == old(self).spec_rows_read(),
            r matches Ok(l) ==> l == old(self).spec_row_len()
                && old(self).spec_width() as int * spec_bytes_per_pixel(old(self).spec_colortype())
                <= l as int,
    ;

    /// Reads the next scanline into the start of `buf`, which must hold at
    /// least one row, and returns the row's one-based index: successive
    /// successful reads return 1, 2, ... with no gaps, and once the image
    /// is exhausted the read fails with `ImageEnd`.
    fn read_scanline(&mut self, buf: &mut Vec<u8>) -> (r: ImageResult<u32>)
        requires
            old(self).inv(),
            old(buf).len() >= old(self).spec_row_len(),
        ensures
            final(self).inv(),
            final(self).spec_width() == old(self).spec_width(),
            final(self).spec_height() == old(self).spec_height(),
            final(self).spec_colortype() == old(self).spec_colortype(),
            final(self).spec_row_len() == old(self).spec_row_len(),
            forall|i: int| #[trigger] final(self).row(i) == old(self).row(i),
            final(buf)@.len() == old(buf)@.len(),
            r matches Ok(n) ==> {
                &&& old(self).spec_rows_read() < old(self).spec_height()
                &&& n == old(self).spec_rows_read() + 1
                &&& final(self).spec_rows_read() == old(self).spec_rows_read() + 1
                &&& final(buf)@.subrange(0, old(self).spec_row_len() as int) == old(self).row(
                    old(self).spec_rows_read() as int,
                )
            },
            r is Err ==> final(self).spec_rows_read() == old(self).spec_rows_read()
                && final(buf)@ == old(buf)@,
            old(self).spec_rows_read() >= old(self).spec_height() ==> r == Err::<
                u32,
                ImageError,
            >(ImageError::ImageEnd),
    ;

    /// Decodes the entire image and returns it as one owned buffer, tagged
    /// by the width of one sample; all scanlines count as consumed.
    fn read_image(&mut self) -> (r: ImageResult<DecodingResult>)
        requires
            old(self).inv(),
        ensures
            final(self).inv(),
            final(self).spec_width() == old(self).spec_width(),
            final(self).spec_height() == old(self).spec_height(),
            final(self).spec_colortype() == old(self).spec_colortype(),
            final(self).spec_row_len() == old(self).spec_row_len(),
            forall|i: int| #[trigger] final(self).row(i) == old(self).row(i),
            r is Ok ==> final(self).spec_rows_read() == final(self).spec_height(),
            r matches Ok(out) ==> match out {
                DecodingResult::U8(v) => {
                    &&& spec_sample_depth(old(self).spec_colortype()) <= 8
                    &&& v@.len() == old(self).spec_height() as int * old(self).spec_row_len() as int
                    &&& forall|i: int|
                        0 <= i < old(self).spec_height() ==> #[trigger] final(self).row(i)
                            == v@.subrange(
                            i * old(self).spec_row_len() as int,
                            (i + 1) * old(self).spec_row_len() as int,
                        )
                },
                DecodingResult::U16(v) => {
                    &&& spec_sample_depth(old(self).spec_colortype()) > 8
                    &&& 2 * v@.len() == old(self).spec_height() as int * old(self).spec_row_len() as int
                },
            },
    ;
}

/// Holds when two decoder states describe the same image: dimensions,
/// color type, row length and row contents agree; only the read cursor
/// may differ.
pub open spec fn same_decoding<D: ImageDecoder>(a: D, b: D) -> bool {
    &&& b.spec_width() == a.spec_width()
    &&& b.spec_height() == a.spec_height()
    &&& b.spec_colortype() == a.spec_colortype()
    &&& b.spec_row_len() == a.spec_row_len()
    &&& forall|i: int| #[trigger] b.row(i) == a.row(i)
}

/// Returns whether the image is animated. Most image formats do not
/// support animation, so the answer for any plain decoder is `false`;
/// animated formats bring their own answer.
pub fn is_animated<D: ImageDecoder>(d: &mut D) -> (r: ImageResult<bool>)
    ensures
        *final(d) == *old(d),
        r == Ok::<bool, ImageError>(false),
{
    Ok(false)
}

/// Discards scanlines until the row with zero-based index `y` has just
/// been read into the start of `tmp`. Succeeds exactly when the decoder
/// had not yet been read past row `y` and delivers every scanline up to
/// and including it.
fn skip_to_row<D: ImageDecoder>(d: &mut D, y: u32, tmp: &mut Vec<u8>) -> (r: ImageResult<u32>)
    requires
        old(d).inv(),
        old(tmp).len() >= old(d).spec_row_len(),
    ensures
        final(d).inv(),
        same_decoding(*old(d), *final(d)),
        final(tmp)@.len() == old(tmp)@.len(),
        r is Ok ==> {
            &&& old(d).spec_rows_read() <= y
            &&& y < old(d).spec_height()
            &&& final(d).spec_rows_read() == y + 1
            &&& final(tmp)@.subrange(0, old(d).spec_row_len() as int) == old(d).row(y as int)
        },
{
    loop
        invariant
            d.inv(),
            same_decoding(*old(d), *d),
            old(d).spec_rows_read() <= d.spec_rows_read(),
            tmp@.len() == old(tmp)@.len(),
            tmp@.len() >= d.spec_row_len(),
        decreases d.spec_height() as int - d.spec_rows_read() as int,
    {
        let row = match d.read_scanline(tmp) {
            Ok(n) => n,
            Err(e) => {
                return Err(e);
            },
        };
        if row - 1 == y {
            return Ok(row);
        }
    }
}

/// Decodes the rectangle of `width` by `length` pixels whose top-left
/// corner lies at `(x, y)`, using the decoder's primitive operations
/// alone: scanlines above the window are discarded, and out of each of
/// the `length` rows that follow, the window's bytes are copied. The
/// rectangle must lie within the image, or the call fails with
/// `DimensionError`; on success the returned buffer holds exactly
/// `length * width * bpp` bytes, row by row.
#[verifier::loop_isolation(false)]
pub fn load_rect<D: ImageDecoder>(d: &mut D, x: u32, y: u32, length: u32, width: u32) -> (r:
    ImageResult<Vec<u8>>)
    requires
        old(d).inv(),
    ensures
        final(d).inv(),
        same_decoding(*old(d), *final(d)),
        x as int + width as int > old(d).spec_width() as int || y as int + length as int > old(
            d,
        ).spec_height() as int ==> r is Err,
        r matches Ok(buf) ==> {
            let bpp = spec_bytes_per_pixel(old(d).spec_colortype());
            let wbpp = width as int * bpp;
            &&& x as int + width as int <= old(d).spec_width() as int
            &&& y as int + length as int <= old(d).spec_height() as int
            &&& length > 0 ==> old(d).spec_rows_read() <= y
            &&& buf@.len() == length as int * wbpp
            &&& forall|k: int|
                0 <= k < length ==> #[trigger] buf@.subrange(k * wbpp, (k + 1) * wbpp) == old(
                    d,
                ).row(y + k).subrange(x as int * bpp, x as int * bpp + wbpp)
        },
{
    let (w, h) = match d.dimensions() {
        Ok(t) => t,
        Err(e) => {
            return Err(e);
        },
    };
    proof {
        assert(same_decoding(*old(d), *d));
    }
    if (x as u64) + (width as u64) > (w as u64) || (y as u64) + (length as u64) > (h as u64) {
        return Err(ImageError::DimensionError);
    }
    let c = match d.colortype() {
        Ok(c) => c,
        Err(e) => {
            return Err(e);
        },
    };
    proof {
        assert(same_decoding(*old(d), *d));
    }
    let bpp: u64 = (bits_per_pixel(c) / 8) as u64;
    let rowlen: usize = match d.row_len() {
        Ok(l) => l,
        Err(e) => {
            return Err(e);
        },
    };
    proof {
        assert(same_decoding(*old(d), *d));
    }
    if length == 0 {
        return Ok(Vec::new());
    }
    proof {
        assert((length as u128) * (width as u128) <= 0xffffffff * 0xffffffff)
            by (nonlinear_arith)
            requires
                length as u128 <= 0xffffffff,
                width as u128 <= 0xffffffff,
        ;
        assert((length as u128) * (width as u128) * (bpp as u128) <= 0xffffffff * 0xffffffff
            * 0x80) by (nonlinear_arith)
            requires
                (length as u128) * (width as u128) <= 0xffffffff * 0xffffffff,
                bpp as u128 <= 0x80,
        ;
    }
    let needed: u128 = (length as u128) * (width as u128) * (bpp as u128);
    if needed > (usize::MAX as u128) {
        return Err(ImageError::DimensionError);
    }
    proof {
        vstd::arithmetic::mul::lemma_mul_is_associative(
            length as int,
            width as int,
            bpp as int,
        );
        assert(width as int * bpp as int <= length as int * (width as int * bpp as int))
            by (nonlinear_arith)
            requires
                1 <= length as int,
                0 <= width as int * bpp as int,
        ;
        vstd::arithmetic::mul::lemma_mul_inequality(
            x as int + width as int,
            w as int,
            bpp as int,
        );
        vstd::arithmetic::mul::lemma_mul_is_distributive_add_other_way(
            bpp as int,
            x as int,
            width as int,
        );
        assert(0 <= x as int * bpp as int) by (nonlinear_arith)
            requires
                0 <= x as int,
                0 <= bpp as int,
        ;
    }
    let wbpp: usize = ((width as u64) * bpp) as usize;
    let xbpp: usize = ((x as u64) * bpp) as usize;
    let mut tmp: Vec<u8> = Vec::new();
    let mut ti: usize = 0;
    while ti < rowlen
        invariant
            ti <= rowlen,
            tmp@.len() == ti,
        decreases rowlen - ti,
    {
        tmp.push(0u8);
        ti = ti + 1;
    }
    match skip_to_row(d, y, &mut tmp) {
        Ok(_) => (),
        Err(e) => {
            return Err(e);
        },
    }
    proof {
        assert(same_decoding(*old(d), *d));
    }
    let ghost d0 = *old(d);
    let mut buf: Vec<u8> = Vec::new();
    let mut i: u32 = 0;
    while i < length
        invariant
            d.inv(),
            same_decoding(d0, *d),
            i <= length,
            1 <= length,
            x as int + width as int <= w as int,
            y as int + length as int <= h as int,
            w == d.spec_width(),
            h == d.spec_height(),
            rowlen == d.spec_row_len(),
            bpp == spec_bytes_per_pixel(d.spec_colortype()),
            wbpp == width as int * bpp as int,
            xbpp == x as int * bpp as int,
            xbpp + wbpp <= rowlen,
            tmp@.len() == rowlen,
            d.spec_rows_read() == y + 1 + i || i == length,
            i < length ==> tmp@.subrange(0, rowlen as int) == d0.row(y as int + i),
            buf@.len() == i as int * wbpp as int,
            forall|k: int|
                0 <= k < i ==> #[trigger] buf@.subrange(
                    k * wbpp as int,
                    (k + 1) * wbpp as int,
                ) == d0.row(y + k).subrange(xbpp as int, xbpp as int + wbpp as int),
        decreases length as int - i as int,
    {
        let ghost buf_start = buf@;
        let ghost cur_row = d0.row(y as int + i);
        let mut j: usize = 0;
        while j < wbpp
            invariant
                j <= wbpp,
                xbpp as int + wbpp as int <= rowlen as int,
                xbpp + wbpp <= tmp@.len(),
                buf@.len() == buf_start.len() + j,
                buf@ == buf_start + tmp@.subrange(xbpp as int, xbpp as int + j as int),
            decreases wbpp - j,
        {
            let b = tmp[xbpp + j];
            buf.push(b);
            proof {
                assert(buf@ == buf_start + tmp@.subrange(
                    xbpp as int,
                    xbpp as int + (j + 1) as int,
                )) by {
                    assert(tmp@.subrange(xbpp as int, xbpp as int + (j + 1)) =~= tmp@.subrange(
                        xbpp as int,
                        xbpp as int + j as int,
                    ).push(tmp@[xbpp as int + j]));
                    assert(buf@ =~= buf_start + tmp@.subrange(
                        xbpp as int,
                        xbpp as int + (j + 1),
                    ));
                }
            }
            j = j + 1;
        }
        proof {
            vstd::arithmetic::mul::lemma_mul_is_distributive_add_other_way(
                wbpp as int,
                i as int,
                1,
            );
            assert(tmp@.subrange(xbpp as int, xbpp as int + wbpp as int) =~= cur_row.subrange(
                xbpp as int,
                xbpp as int + wbpp as int,
            ));
            assert forall|k: int| 0 <= k < i + 1 implies #[trigger] buf@.subrange(
                k * wbpp as int,
                (k + 1) * wbpp as int,
            ) == d0.row(y + k).subrange(xbpp as int, xbpp as int + wbpp as int) by {
                assert(0 <= k * wbpp as int && (k + 1) * wbpp as int <= buf@.len())
                    by (nonlinear_arith)
                    requires
                        0 <= k < i as int + 1,
                        buf@.len() == (i as int + 1) * wbpp as int,
                        0 <= wbpp as int,
                ;
                if k < i {
                    assert(k * wbpp as int <= (k + 1) * wbpp as int <= i as int * wbpp as int)
                        by (nonlinear_arith)
                        requires
                            0 <= k,
                            k + 1 <= i as int,
                            0 <= wbpp as int,
                    ;
                    assert forall|m: int| k * wbpp as int <= m < (k + 1) * wbpp as int implies
                        buf@[m] == buf_start[m] by {
                    }
                    assert(buf@.subrange(k * wbpp as int, (k + 1) * wbpp as int)
                        =~= buf_start.subrange(k * wbpp as int, (k + 1) * wbpp as int));
                } else {
                    assert(buf@.subrange(k * wbpp as int, (k + 1) * wbpp as int) =~= tmp@
                        .subrange(xbpp as int, xbpp as int + wbpp as int));
                }
            }
        }
        if i + 1 < length {
            match d.read_scanline(&mut tmp) {
                Ok(_) => (),
                Err(e) => {
                    return Err(e);
                },
            }
        }
        i = i + 1;
    }
    Ok(buf)
}


/// Decodes the whole image and wraps it as a single-frame animation
/// sequence; animated formats bring their own frames instead. Only images
/// decoded to four one-byte samples per pixel (8-bit RGBA) can be
/// reinterpreted here, since color conversion tables live outside this
/// library; any other color type fails with `UnsupportedColor`.
#[verifier::loop_isolation(false)]
pub fn into_frames<D: ImageDecoder>(d: D) -> (r: ImageResult<Frames>)
    requires
        d.inv(),
    ensures
        d.spec_colortype() != ColorType::RGBA(8) ==> r is Err,
        r matches Ok(frames) ==> {
            &&& d.spec_colortype() == ColorType::RGBA(8)
            &&& frames.spec_frames().len() == 1
            &&& frames.spec_frames()[0].spec_buffer().spec_width() == d.spec_width()
            &&& frames.spec_frames()[0].spec_buffer().spec_height() == d.spec_height()
            &&& forall|x: int, y: int|
                0 <= x < d.spec_width() && 0 <= y < d.spec_height()
                    ==> #[trigger] frames.spec_frames()[0].spec_buffer().pix(x, y) == Rgba(
                    d.row(y)[4 * x],
                    d.row(y)[4 * x + 1],
                    d.row(y)[4 * x + 2],
                    d.row(y)[4 * x + 3],
                )
        },
{
    let mut dec = d;
    let c = match dec.colortype() {
        Ok(c) => c,
        Err(e) => {
            return Err(e);
        },
    };
    let rgba8 = match c {
        ColorType::RGBA(n) => n == 8,
        _ => false,
    };
    if !rgba8 {
        return Err(ImageError::UnsupportedColor(c));
    }
    let (w, h) = match dec.dimensions() {
        Ok(t) => t,
        Err(e) => {
            return Err(e);
        },
    };
    let rl: usize = match dec.row_len() {
        Ok(l) => l,
        Err(e) => {
            return Err(e);
        },
    };
    let v: Vec<u8> = match dec.read_image() {
        Ok(DecodingResult::U8(v)) => v,
        Ok(DecodingResult::U16(_)) => {
            proof {
                assert(false);
            }
            vstd::pervasive::unreached()
        },
        Err(e) => {
            return Err(e);
        },
    };
    let n = v.len();
    proof {
        assert(same_decoding(d, dec));
        assert forall|i: int| 0 <= i < h implies #[trigger] d.row(i) == v@.subrange(
            i * (rl as int),
            (i + 1) * (rl as int),
        ) by {
            assert(dec.row(i) == v@.subrange(i * (rl as int), (i + 1) * (rl as int)));
        }
        assert((w as int) * (h as int) <= n as int) by (nonlinear_arith)
            requires
                4 * (w as int) <= rl as int,
                n as int == (h as int) * (rl as int),
                0 <= w as int,
                0 <= h as int,
        ;
    }
    let mut out = ImageBuffer::<Rgba>::new(w, h);
    let mut yy: u32 = 0;
    while yy < h
        invariant
            yy <= h,
            out.inv(),
            out.spec_width() == w,
            out.spec_height() == h,
            forall|i: int, j: int|
                0 <= i < w && 0 <= j < yy ==> #[trigger] out.pix(i, j) == Rgba(
                    d.row(j)[4 * i],
                    d.row(j)[4 * i + 1],
                    d.row(j)[4 * i + 2],
                    d.row(j)[4 * i + 3],
                ),
        decreases h as int - yy as int,
    {
        let mut xx: u32 = 0;
        while xx < w
            invariant
                xx <= w,
                yy < h,
                out.inv(),
                out.spec_width() == w,
                out.spec_height() == h,
                forall|i: int, j: int|
                    0 <= i < w && 0 <= j < yy ==> #[trigger] out.pix(i, j) == Rgba(
                        d.row(j)[4 * i],
                        d.row(j)[4 * i + 1],
                        d.row(j)[4 * i + 2],
                        d.row(j)[4 * i + 3],
                    ),
                forall|i: int|
                    0 <= i < xx ==> #[trigger] out.pix(i, yy as int) == Rgba(
                        d.row(yy as int)[4 * i],
                        d.row(yy as int)[4 * i + 1],
                        d.row(yy as int)[4 * i + 2],
                        d.row(yy as int)[4 * i + 3],
                    ),
            decreases w as int - xx as int,
        {
            proof {
                assert((yy as int) * (rl as int) + 4 * (xx as int) + 4 <= (h as int) * (
                rl as int)) by (nonlinear_arith)
                    requires
                        0 <= (xx as int) < (w as int),
                        0 <= (yy as int) < (h as int),
                        4 * (w as int) <= rl as int,
                ;
                assert(0 <= (yy as int) * (rl as int)) by (nonlinear_arith)
                    requires
                        0 <= yy as int,
                        0 <= rl as int,
                ;
                assert((yy as int) * (rl as int) + (rl as int) <= (h as int) * (rl as int))
                    by (nonlinear_arith)
                    requires
                        (yy as int) < (h as int),
                        0 <= rl as int,
                ;
                vstd::arithmetic::mul::lemma_mul_is_distributive_add_other_way(
                    rl as int,
                    yy as int,
                    1,
                );
            }
            let base: usize = (yy as usize) * rl + (xx as usize) * 4;
            let p = Rgba(v[base], v[base + 1], v[base + 2], v[base + 3]);
            proof {
                let row = d.row(yy as int);
                let start = (yy as int) * (rl as int);
                assert(row == v@.subrange(start, (yy as int + 1) * (rl as int)));
                assert(row.len() == rl as int);
                assert(4 * (xx as int) + 4 <= rl as int);
                assert(row[4 * (xx as int)] == v@.subrange(
                    start,
                    (yy as int + 1) * (rl as int),
                )[4 * (xx as int)]);
                assert(row[4 * (xx as int) + 1] == v@.subrange(
                    start,
                    (yy as int + 1) * (rl as int),
                )[4 * (xx as int) + 1]);
                assert(row[4 * (xx as int) + 2] == v@.subrange(
                    start,
                    (yy as int + 1) * (rl as int),
                )[4 * (xx as int) + 2]);
                assert(row[4 * (xx as int) + 3] == v@.subrange(
                    start,
                    (yy as int + 1) * (rl as int),
                )[4 * (xx as int) + 3]);
                assert(p == Rgba(
                    row[4 * (xx as int)],
                    row[4 * (xx as int) + 1],
                    row[4 * (xx as int) + 2],
                    row[4 * (xx as int) + 3],
                ));
            }
            out.put_pixel(xx, yy, p);
            xx = xx + 1;
        }
        yy = yy + 1;
    }
    let frame = Frame::new(out);
    let mut list: Vec<Frame> = Vec::new();
    list.push(frame);
    Ok(Frames::new(list))
}

} // verus!
