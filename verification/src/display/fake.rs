//! A display that keeps the last buffer in memory.

use vstd::prelude::*;
use crate::display::{Dimensions, Display, DisplayError, Pixel};

verus! {

/// A display without hardware: it remembers the buffer it took last.
pub struct FakeDisplay {
    width: u32,
    height: u32,
    data: Vec<Pixel>,
}

impl FakeDisplay {
    /// A display of the given size that shows nothing yet.
    pub fn new(width: u32, height: u32) -> (display: Self)
        ensures
            display.panel() == (Dimensions { width, height }),
            display.shown() == Seq::<Pixel>::empty(),
    {
        Self { width, height, data: Vec::new() }
    }

    /// The buffer that the display took last; empty before the first one.
    pub closed spec fn shown(&self) -> Seq<Pixel> {
        self.data@
    }

    /// The buffer that the display took last.
    pub fn pixels(&self) -> (data: &Vec<Pixel>)
        ensures
            data@ == self.shown(),
    {
        &self.data
    }
}

impl Display for FakeDisplay {
    closed spec fn panel(&self) -> Dimensions {
        Dimensions { width: self.width, height: self.height }
    }

    /// A buffer of the panel's size is taken and shown; any other is refused
    /// and leaves what is shown as it was.
    open spec fn takes(
        &self,
        pixels: Seq<Pixel>,
        next: &Self,
        r: Result<(), DisplayError>,
    ) -> bool {
        if pixels.len() == self.panel().area() {
            r is Ok && next.shown() == pixels
        } else {
            r matches Err(DisplayError::DimensionMismatch) && next.shown() == self.shown()
        }
    }

    fn dimensions(&self) -> (d: Dimensions) {
        Dimensions { width: self.width, height: self.height }
    }

    fn update_pixels(&mut self, pixels: Vec<Pixel>) -> (r: Result<(), DisplayError>) {
        let expected = self.dimensions().pixel_count();
        if pixels.len() as u64 != expected {
            return Err(DisplayError::DimensionMismatch);
        }
        self.data = pixels;
        Ok(())
    }
}

} // verus!
