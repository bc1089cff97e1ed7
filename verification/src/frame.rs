//! Frames: validated rasters of pixels.

use vstd::prelude::*;
use crate::display::{Dimensions, Pixel};

pub mod filler;
pub mod gen;

verus! {

/// What a frame is: its size and its pixels in row-major order.
pub struct FrameView {
    pub width: u32,
    pub height: u32,
    pub pixels: Seq<Pixel>,
}

impl FrameView {
    /// The frame holds exactly one pixel per position.
    pub open spec fn wf(self) -> bool {
        self.pixels.len() == self.width * self.height
    }

    /// The size of the frame.
    pub open spec fn dimensions(self) -> Dimensions {
        Dimensions { width: self.width, height: self.height }
    }

    /// The pixel in column `x` of row `y`.
    pub open spec fn at(self, x: int, y: int) -> Pixel
        recommends
            0 <= x < self.width,
            0 <= y < self.height,
            self.wf(),
    {
        self.pixels[y * self.width + x]
    }
}

/// An immutable raster of `width * height` pixels in row-major order.
#[derive(Debug, PartialEq, Eq)]
pub struct Frame {
    width: u32,
    height: u32,
    pixel_data: Vec<Pixel>,
}

/// Why a frame could not be made.
#[derive(Debug)]
pub enum FrameError {
    /// The number of pixels is not `width * height`.
    DimensionMismatch,
    /// Another failure; the text says which.
    Other(String),
}

impl FrameError {
    /// The text that describes the error.
    pub fn message(&self) -> (text: String)
        ensures
            self is DimensionMismatch ==> text@
                == "the amount of provided pixels does not correspond to the dimensions of the frame"@,
            self matches FrameError::Other(inner) ==> text@ == inner@,
    {
        match self {
            FrameError::DimensionMismatch => {
                "the amount of provided pixels does not correspond to the dimensions of the frame".to_owned()
            },
            FrameError::Other(inner) => inner.clone(),
        }
    }
}

impl View for Frame {
    type V = FrameView;

    closed spec fn view(&self) -> FrameView {
        FrameView { width: self.width, height: self.height, pixels: self.pixel_data@ }
    }
}

impl Frame {
    #[verifier::type_invariant]
    spec fn shape(&self) -> bool {
        self.pixel_data@.len() == self.width * self.height
    }

    /// A frame of the given size, if `pixel_data` holds exactly one pixel per
    /// position.
    pub fn new(width: u32, height: u32, pixel_data: Vec<Pixel>) -> (r: Result<Self, FrameError>)
        ensures
            r is Ok <==> pixel_data@.len() == width * height,
            r matches Ok(frame) ==> frame@ == (FrameView { width, height, pixels: pixel_data@ }),
            r matches Err(e) ==> e is DimensionMismatch,
    {
        let expected = (Dimensions { width, height }).pixel_count();
        if pixel_data.len() as u64 != expected {
            return Err(FrameError::DimensionMismatch);
        }
        Ok(Self { width, height, pixel_data })
    }

    /// A frame of the given size with every pixel `color`.
    pub fn with_color(width: u32, height: u32, color: Pixel) -> (frame: Self)
        ensures
            frame@ == (FrameView {
                width,
                height,
                pixels: Seq::new((width * height) as nat, |i: int| color),
            }),
    {
        let total = (Dimensions { width, height }).pixel_count();
        let mut pixel_data: Vec<Pixel> = Vec::new();
        let mut n: u64 = 0;
        while n < total
            invariant
                n <= total,
                pixel_data@ == Seq::new(n as nat, |i: int| color),
            decreases total - n,
        {
            pixel_data.push(color);
            n = n + 1;
        }
        Self { width, height, pixel_data }
    }

    /// The frame without pixels, of size 0 by 0.
    pub fn empty() -> (frame: Self)
        ensures
            frame@ == (FrameView { width: 0, height: 0, pixels: Seq::empty() }),
    {
        Self { width: 0, height: 0, pixel_data: Vec::new() }
    }

    /// The size of the frame.
    pub fn dimensions(&self) -> (d: Dimensions)
        ensures
            d == self@.dimensions(),
            self@.wf(),
    {
        proof {
            use_type_invariant(self);
        }
        Dimensions { width: self.width, height: self.height }
    }

    /// The pixels of the frame in row-major order.
    pub fn pixel_data(&self) -> (pixels: &Vec<Pixel>)
        ensures
            pixels@ == self@.pixels,
            self@.wf(),
    {
        proof {
            use_type_invariant(self);
        }
        &self.pixel_data
    }
}

impl Clone for Frame {
    fn clone(&self) -> (copy: Self)
        ensures
            copy@ == self@,
    {
        proof {
            use_type_invariant(self);
        }
        let mut pixel_data: Vec<Pixel> = Vec::new();
        let mut i: usize = 0;
        while i < self.pixel_data.len()
            invariant
                i <= self.pixel_data.len(),
                pixel_data@ == self.pixel_data@.take(i as int),
            decreases self.pixel_data.len() - i,
        {
            pixel_data.push(self.pixel_data[i]);
            i = i + 1;
        }
        assert(self.pixel_data@.take(self.pixel_data.len() as int) == self.pixel_data@);
        Self { width: self.width, height: self.height, pixel_data }
    }
}

} // verus!
