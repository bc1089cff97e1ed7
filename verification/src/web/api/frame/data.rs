//! The body of a submission.

use vstd::prelude::*;

verus! {

/// The body of a submission.
#[derive(Debug)]
pub struct FrameSubmitData {
    /// The frame that is submitted.
    pub frame: FrameData,
}

/// A frame as a producer sends it.
#[derive(Debug)]
pub struct FrameData {
    /// The width of the frame.
    pub width: u32,
    /// The height of the frame.
    pub height: u32,
    /// The pixels in row-major order, three bytes each for red, green and
    /// blue, in base64.
    pub pixels_b64: String,
}

} // verus!
