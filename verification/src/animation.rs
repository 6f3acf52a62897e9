//! The animation-frame container: an ordered sequence of fully decoded
//! RGBA frames.

use vstd::prelude::*;

use crate::buffer::ImageBuffer;
use crate::color::Rgba;

verus! {

/// A single frame of an animation: one fully decoded RGBA buffer.
pub struct Frame {
    buffer: ImageBuffer<Rgba>,
}

impl Frame {
    /// The frame's pixel buffer.
    pub closed spec fn spec_buffer(&self) -> ImageBuffer<Rgba> {
        self.buffer
    }

    /// Wraps a fully decoded RGBA buffer as one frame.
    pub fn new(buffer: ImageBuffer<Rgba>) -> (r: Frame)
        ensures
            r.spec_buffer() == buffer,
    {
        Frame { buffer }
    }

    /// Consumes the frame and hands its buffer back.
    pub fn into_buffer(self) -> (r: ImageBuffer<Rgba>)
        ensures
            r == self.spec_buffer(),
    {
        self.buffer
    }
}

/// An ordered sequence of animation frames.
pub struct Frames {
    frames: Vec<Frame>,
}

impl Frames {
    /// The held frames, in order.
    pub closed spec fn spec_frames(&self) -> Seq<Frame> {
        self.frames@
    }

    /// Wraps a sequence of frames.
    pub fn new(frames: Vec<Frame>) -> (r: Frames)
        ensures
            r.spec_frames() == frames@,
    {
        Frames { frames }
    }

    /// Returns how many frames the sequence holds.
    pub fn num_frames(&self) -> (n: usize)
        ensures
            n == self.spec_frames().len(),
    {
        self.frames.len()
    }

    /// Consumes the sequence and hands the frames back.
    pub fn into_vec(self) -> (v: Vec<Frame>)
        ensures
            v@ == self.spec_frames(),
    {
        self.frames
    }
}

} // verus!
