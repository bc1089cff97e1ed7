//! The pixel model and the display sink.

use vstd::prelude::*;

pub mod fake;

verus! {

/// One 24-bit RGB pixel.
#[derive(Clone, Copy, PartialEq, Eq, Structural, Debug)]
pub struct Pixel {
    pub r: u8,
    pub g: u8,
    pub b: u8,
}

/// The size of a raster, in pixels.
#[derive(Clone, Copy, PartialEq, Eq, Structural, Debug)]
pub struct Dimensions {
    pub width: u32,
    pub height: u32,
}

impl Dimensions {
    /// The number of pixels of a raster of this size.
    pub open spec fn area(self) -> nat {
        (self.width * self.height) as nat
    }

    /// Whether a raster of size `inner` fits inside one of this size.
    pub open spec fn holds(self, inner: Dimensions) -> bool {
        inner.width <= self.width && inner.height <= self.height
    }

    /// The number of pixels of a raster of this size.
    pub fn pixel_count(&self) -> (n: u64)
        ensures
            n == self.area(),
    {
        assert(self.width * self.height <= 0xffff_ffff * 0xffff_ffff) by (nonlinear_arith)
            requires
                self.width <= 0xffff_ffff,
                self.height <= 0xffff_ffff,
        ;
        (self.width as u64) * (self.height as u64)
    }
}

/// Why a display refused a buffer, or a filler a frame.
#[derive(Debug)]
pub enum DisplayError {
    /// The buffer does not hold exactly one pixel per panel position.
    DimensionMismatch,
    /// The frame is wider or taller than the panel.
    FrameTooLarge,
    /// The driver failed; the text says how.
    Other(String),
}

impl DisplayError {
    /// The text that describes the error.
    pub fn message(&self) -> (text: String)
        ensures
            self is DimensionMismatch ==> text@
                == "the amount of provided pixels does not correspond to the dimensions of the display"@,
            self is FrameTooLarge ==> text@
                == "the provided frame exceeds the dimensions of the display"@,
            self matches DisplayError::Other(inner) ==> text@ == inner@,
    {
        match self {
            DisplayError::DimensionMismatch => {
                "the amount of provided pixels does not correspond to the dimensions of the display".to_owned()
            },
            DisplayError::FrameTooLarge => {
                "the provided frame exceeds the dimensions of the display".to_owned()
            },
            DisplayError::Other(inner) => inner.clone(),
        }
    }
}

/// A sink that shows full-panel pixel buffers.
///
/// The panel's size is fixed for the life of the display. A buffer is taken
/// only if it holds exactly one pixel per panel position, in row-major order.
///
/// A display states what it does through `panel` and `takes`. One that states
/// nothing keeps the defaults: then nothing is known of its size, and any
/// answer to a buffer is possible.
pub trait Display {
    /// The fixed size of the panel.
    open spec fn panel(&self) -> Dimensions {
        arbitrary()
    }

    /// Whether the display, handed `pixels` in this state, can answer `r` and
    /// be in state `next` afterwards.
    open spec fn takes(
        &self,
        pixels: Seq<Pixel>,
        next: &Self,
        r: Result<(), DisplayError>,
    ) -> bool {
        true
    }

    /// The fixed size of the panel.
    fn dimensions(&self) -> (d: Dimensions)
        ensures
            d == self.panel(),
    ;

    /// Hands a full-panel buffer to the display.
    ///
    /// A buffer of the wrong length is refused with `DimensionMismatch`, and
    /// only such a buffer is.
    fn update_pixels(&mut self, pixels: Vec<Pixel>) -> (r: Result<(), DisplayError>)
        ensures
            final(self).panel() == old(self).panel(),
            r matches Err(DisplayError::DimensionMismatch) <==> pixels@.len() != old(
                self,
            ).panel().area(),
            old(self).takes(pixels@, final(self), r),
    ;
}

/// A boxed display is the display in the box.
impl<T: Display> Display for Box<T> {
    open spec fn panel(&self) -> Dimensions {
        (**self).panel()
    }

    open spec fn takes(
        &self,
        pixels: Seq<Pixel>,
        next: &Self,
        r: Result<(), DisplayError>,
    ) -> bool {
        (**self).takes(pixels, &**next, r)
    }

    fn dimensions(&self) -> (d: Dimensions) {
        (**self).dimensions()
    }

    fn update_pixels(&mut self, pixels: Vec<Pixel>) -> (r: Result<(), DisplayError>) {
        (**self).update_pixels(pixels)
    }
}

} // verus!
