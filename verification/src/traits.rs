//! The capability a pixel type must provide to be stored in an image buffer.

use vstd::prelude::*;

verus! {

/// A fixed-channel-count pixel value. An image buffer can hold any type
/// with this capability; the library needs only a fill value for fresh
/// buffers and a compositing operator.
pub trait Pixel: Sized + Copy {
    /// The pixel a fresh buffer is filled with.
    spec fn spec_zero() -> Self;

    /// What `blend` returns: `other` composited over `self`.
    spec fn spec_blend(self, other: Self) -> Self;

    /// Returns the pixel a fresh buffer is filled with.
    fn zero() -> (r: Self)
        ensures
            r == Self::spec_zero(),
    ;

    /// Composites `other` over `self` and returns the result.
    fn blend(self, other: Self) -> (r: Self)
        ensures
            r == self.spec_blend(other),
    ;
}

} // verus!
