//! A concrete in-memory pixel buffer implementing the image capability.

use vstd::prelude::*;

use crate::image::GenericImage;
use crate::traits::Pixel;

verus! {

/// An owned pixel buffer: a `width` by `height` grid stored row by row.
pub struct ImageBuffer<P> {
    width: u32,
    height: u32,
    data: Vec<P>,
}

impl<P: Pixel> ImageBuffer<P> {
    /// The stored pixels, row by row.
    pub closed spec fn spec_data(&self) -> Seq<P> {
        self.data@
    }

    /// Creates a buffer of the given dimensions, filled with the pixel
    /// type's zero value.
    pub fn new(width: u32, height: u32) -> (r: ImageBuffer<P>)
        requires
            width as int * height as int <= usize::MAX as int,
        ensures
            r.inv(),
            r.spec_width() == width,
            r.spec_height() == height,
            forall|x: int, y: int|
                0 <= x < width && 0 <= y < height ==> #[trigger] r.pix(x, y) == P::spec_zero(),
    {
        let n: usize = (width as usize) * (height as usize);
        let mut data: Vec<P> = Vec::new();
        let mut i: usize = 0;
        while i < n
            invariant
                i <= n,
                data@.len() == i,
                forall|k: int| 0 <= k < i ==> #[trigger] data@[k] == P::spec_zero(),
            decreases n - i,
        {
            data.push(P::zero());
            i = i + 1;
        }
        let buf = ImageBuffer { width, height, data };
        proof {
            assert forall|x: int, y: int| 0 <= x < width && 0 <= y < height implies #[trigger] buf
                .pix(x, y) == P::spec_zero() by {
                assert(0 <= y * (width as int) + x < (width as int) * (height as int))
                    by (nonlinear_arith)
                    requires
                        0 <= x < (width as int),
                        0 <= y < (height as int),
                ;
            }
        }
        buf
    }

    /// The index of the pixel at `(x, y)` in the row-major storage.
    fn index_of(&self, x: u32, y: u32) -> (idx: usize)
        requires
            self.inv(),
            x < self.spec_width(),
            y < self.spec_height(),
        ensures
            idx == y as int * self.spec_width() as int + x as int,
            idx < self.spec_data().len(),
    {
        let n = self.data.len();
        proof {
            assert((y as int) * (self.width as int) + (x as int) < (self.width as int) * (
            self.height as int)) by (nonlinear_arith)
                requires
                    0 <= (x as int) < (self.width as int),
                    0 <= (y as int) < (self.height as int),
            ;
            assert(0 <= y as int * self.width as int) by (nonlinear_arith)
                requires
                    0 <= (y as int),
                    0 <= (self.width as int),
            ;
        }
        (y as usize) * (self.width as usize) + (x as usize)
    }

    /// Returns an exclusive reference to the pixel at `(x, y)`; the
    /// coordinates must be in bounds.
    pub fn get_pixel_mut(&mut self, x: u32, y: u32) -> (r: &mut P)
        requires
            old(self).inv(),
            x < old(self).spec_width(),
            y < old(self).spec_height(),
        ensures
            *r == old(self).pix(x as int, y as int),
            final(self).inv(),
            final(self).spec_width() == old(self).spec_width(),
            final(self).spec_height() == old(self).spec_height(),
            final(self).pix(x as int, y as int) == *final(r),
            forall|i: int, j: int|
                !(i == x as int && j == y as int) ==> #[trigger] final(self).pix(i, j) == old(
                    self,
                ).pix(i, j),
    {
        let idx = self.index_of(x, y);
        proof {
            let w = self.width as int;
            let h = self.height as int;
            let xx = x as int;
            let yy = y as int;
            assert forall|i: int, j: int| !(i == xx && j == yy) && 0 <= i < w && 0 <= j < h
                implies #[trigger] (j * w + i) != yy * w + xx by {
                assert(j * w + i != yy * w + xx) by (nonlinear_arith)
                    requires
                        0 <= i < w,
                        0 <= xx < w,
                        0 <= j,
                        0 <= yy,
                        !(i == xx && j == yy),
                ;
            }
            assert forall|i: int, j: int| 0 <= i < w && 0 <= j < h implies 0 <= #[trigger] (j
                * w + i) < w * h by {
                assert(0 <= j * w + i < w * h) by (nonlinear_arith)
                    requires
                        0 <= i < w,
                        0 <= j < h,
                ;
            }
        }
        &mut self.data[idx]
    }
}

impl<P: Pixel> GenericImage for ImageBuffer<P> {
    type Pixel = P;

    closed spec fn spec_width(&self) -> u32 {
        self.width
    }

    closed spec fn spec_height(&self) -> u32 {
        self.height
    }

    closed spec fn spec_xoffset(&self) -> u32 {
        0
    }

    closed spec fn spec_yoffset(&self) -> u32 {
        0
    }

    closed spec fn pix(&self, x: int, y: int) -> P {
        if 0 <= x < self.width && 0 <= y < self.height {
            self.data@[y * self.width as int + x]
        } else {
            P::spec_zero()
        }
    }

    closed spec fn inv(&self) -> bool {
        self.data@.len() == self.width as int * self.height as int
    }

    fn dimensions(&self) -> (r: (u32, u32)) {
        (self.width, self.height)
    }

    fn bounds(&self) -> (r: (u32, u32, u32, u32)) {
        (0, 0, self.width, self.height)
    }

    fn get_pixel(&self, x: u32, y: u32) -> (p: P) {
        let idx = self.index_of(x, y);
        self.data[idx]
    }

    fn put_pixel(&mut self, x: u32, y: u32, pixel: P) {
        let idx = self.index_of(x, y);
        self.data[idx] = pixel;
        proof {
            assert(self.data@ == old(self).data@.update(idx as int, pixel));
            let w = self.width as int;
            let h = self.height as int;
            let xx = x as int;
            let yy = y as int;
            assert forall|i: int, j: int| !(i == xx && j == yy) implies #[trigger] self.pix(i, j)
                == old(self).pix(i, j) by {
                if 0 <= i < w && 0 <= j < h {
                    assert(0 <= j * w + i < w * h) by (nonlinear_arith)
                        requires
                            0 <= i < w,
                            0 <= j < h,
                    ;
                    assert(j * w + i != yy * w + xx) by (nonlinear_arith)
                        requires
                            0 <= i < w,
                            0 <= xx < w,
                            0 <= j,
                            0 <= yy,
                            !(i == xx && j == yy),
                    ;
                }
            }
        }
    }

    fn blend_pixel(&mut self, x: u32, y: u32, pixel: P) {
        let cur = self.get_pixel(x, y);
        let mixed = cur.blend(pixel);
        self.put_pixel(x, y, mixed);
    }
}

} // verus!
