//! An in-memory decoder backend: the decoder capability over rows of
//! bytes already held in memory.

use vstd::prelude::*;

use crate::color::ColorType;
use crate::color::spec_bytes_per_pixel;
use crate::color::spec_sample_depth;
use crate::image::DecodingResult;
use crate::image::ImageDecoder;
use crate::image::ImageError;
use crate::image::ImageResult;

verus! {

/// A decoder over decoded rows already in memory: `height` rows of
/// `row_len` bytes each, handed out one scanline at a time. It stands in
/// for any streaming backend and answers every primitive operation
/// without failing.
pub struct MemoryDecoder {
    width: u32,
    height: u32,
    colortype: ColorType,
    row_len: usize,
    data: Vec<u8>,
    rows_read: u32,
}

impl MemoryDecoder {
    /// Creates a decoder over `data`, which must hold `height` rows of
    /// `row_len` bytes each. A row must hold at least `width` times
    /// bytes-per-pixel bytes, and one sample must fit in one byte.
    pub fn new(width: u32, height: u32, colortype: ColorType, row_len: usize, data: Vec<u8>) -> (r:
        MemoryDecoder)
        requires
            data@.len() == height as int * row_len as int,
            width as int * spec_bytes_per_pixel(colortype) <= row_len as int,
            spec_sample_depth(colortype) <= 8,
        ensures
            r.inv(),
            r.spec_width() == width,
            r.spec_height() == height,
            r.spec_colortype() == colortype,
            r.spec_row_len() == row_len,
            r.spec_rows_read() == 0,
            forall|i: int|
                0 <= i < height ==> #[trigger] r.row(i) == data@.subrange(
                    i * row_len as int,
                    (i + 1) * row_len as int,
                ),
    {
        MemoryDecoder { width, height, colortype, row_len, data, rows_read: 0 }
    }
}

impl ImageDecoder for MemoryDecoder {
    closed spec fn spec_width(&self) -> u32 {
        self.width
    }

    closed spec fn spec_height(&self) -> u32 {
        self.height
    }

    closed spec fn spec_colortype(&self) -> ColorType {
        self.colortype
    }

    closed spec fn spec_row_len(&self) -> usize {
        self.row_len
    }

    closed spec fn spec_rows_read(&self) -> u32 {
        self.rows_read
    }

    closed spec fn row(&self, i: int) -> Seq<u8> {
        if 0 <= i < self.height {
            self.data@.subrange(i * self.row_len as int, (i + 1) * self.row_len as int)
        } else {
            Seq::empty()
        }
    }

    closed spec fn inv(&self) -> bool {
        &&& self.data@.len() == self.height as int * self.row_len as int
        &&& self.width as int * spec_bytes_per_pixel(self.colortype) <= self.row_len as int
        &&& spec_sample_depth(self.colortype) <= 8
        &&& self.rows_read <= self.height
    }

    fn dimensions(&mut self) -> (r: ImageResult<(u32, u32)>)
        ensures
            r == Ok::<(u32, u32), ImageError>((old(self).spec_width(), old(self).spec_height())),
    {
        Ok((self.width, self.height))
    }

    fn colortype(&mut self) -> (r: ImageResult<ColorType>)
        ensures
            r == Ok::<ColorType, ImageError>(old(self).spec_colortype()),
    {
        Ok(self.colortype)
    }

    fn row_len(&mut self) -> (r: ImageResult<usize>)
        ensures
            r == Ok::<usize, ImageError>(old(self).spec_row_len()),
    {
        Ok(self.row_len)
    }

    #[verifier::loop_isolation(false)]
    fn read_scanline(&mut self, buf: &mut Vec<u8>) -> (r: ImageResult<u32>)
        ensures
            old(self).spec_rows_read() < old(self).spec_height() ==> r == Ok::<u32, ImageError>(
                (old(self).spec_rows_read() + 1) as u32,
            ),
    {
        if self.rows_read >= self.height {
            return Err(ImageError::ImageEnd);
        }
        let n = self.data.len();
        proof {
            assert((self.rows_read as int) * (self.row_len as int) + (self.row_len as int) <= (
            self.height as int) * (self.row_len as int)) by (nonlinear_arith)
                requires
                    (self.rows_read as int) < (self.height as int),
                    0 <= (self.row_len as int),
            ;
            assert(0 <= (self.rows_read as int) * (self.row_len as int)) by (nonlinear_arith)
                requires
                    0 <= (self.rows_read as int),
                    0 <= (self.row_len as int),
            ;
        }
        let base: usize = (self.rows_read as usize) * self.row_len;
        let mut j: usize = 0;
        while j < self.row_len
            invariant
                j <= self.row_len,
                buf@.len() == old(buf)@.len(),
                forall|m: int| 0 <= m < j ==> #[trigger] buf@[m] == self.data@[base + m],
                forall|m: int| j <= m < buf@.len() ==> #[trigger] buf@[m] == old(buf)@[m],
            decreases self.row_len - j,
        {
            let v = self.data[base + j];
            buf[j] = v;
            j = j + 1;
        }
        self.rows_read = self.rows_read + 1;
        proof {
            vstd::arithmetic::mul::lemma_mul_is_distributive_add_other_way(
                self.row_len as int,
                old(self).rows_read as int,
                1,
            );
            assert(buf@.subrange(0, self.row_len as int) =~= old(self).row(
                old(self).rows_read as int,
            ));
        }
        Ok(self.rows_read)
    }

    #[verifier::loop_isolation(false)]
    fn read_image(&mut self) -> (r: ImageResult<DecodingResult>)
        ensures
            r is Ok,
    {
        let n = self.data.len();
        let mut out: Vec<u8> = Vec::new();
        let mut j: usize = 0;
        while j < n
            invariant
                j <= n,
                out@.len() == j,
                forall|m: int| 0 <= m < j ==> #[trigger] out@[m] == self.data@[m],
            decreases n - j,
        {
            let v = self.data[j];
            out.push(v);
            j = j + 1;
        }
        self.rows_read = self.height;
        proof {
            assert(out@ =~= self.data@);
            assert forall|i: int| 0 <= i < self.height implies #[trigger] self.row(i) == out@
                .subrange(
                i * self.row_len as int,
                (i + 1) * self.row_len as int,
            ) by {
                assert(0 <= i * self.row_len as int && (i + 1) * self.row_len as int <= (
                self.height as int) * (self.row_len as int)) by (nonlinear_arith)
                    requires
                        0 <= i < self.height as int,
                        0 <= self.row_len as int,
                ;
            }
        }
        Ok(DecodingResult::U8(out))
    }
}

} // verus!
