//! A generator that always answers the same one-coloured frame.

use vstd::prelude::*;
use crate::display::Pixel;
use crate::frame::gen::FrameGenerator;
use crate::frame::{Frame, FrameView};

verus! {

/// The frame of the given size whose pixels all are `color`.
pub open spec fn solid_frame(color: Pixel, width: u32, height: u32) -> FrameView {
    FrameView { width, height, pixels: Seq::new((width * height) as nat, |i: int| color) }
}

/// Answers every query with one frame of a single colour.
pub struct SolidColorFrameGenerator {
    color: Pixel,
    width: u32,
    height: u32,
    frame: Frame,
}

impl SolidColorFrameGenerator {
    /// A generator of `width` by `height` frames filled with `color`.
    pub fn new(color: Pixel, width: u32, height: u32) -> (generator: Self)
        ensures
            generator.inv(),
            generator.pattern() == solid_frame(color, width, height),
    {
        Self { color, width, height, frame: Frame::with_color(width, height, color) }
    }

    /// The frame that every query answers.
    pub closed spec fn pattern(&self) -> FrameView {
        self.frame@
    }
}

impl FrameGenerator for SolidColorFrameGenerator {
    closed spec fn inv(&self) -> bool {
        self.frame@ == solid_frame(self.color, self.width, self.height)
    }

    open spec fn answers(
        &self,
        unix_micros: u128,
        next: &Self,
        frame: Option<FrameView>,
    ) -> bool {
        frame == Some(self.pattern()) && next.pattern() == self.pattern()
    }

    fn generate(&mut self, unix_micros: u128) -> (frame: Option<Frame>) {
        let frame = self.frame.clone();
        let _ = frame.dimensions();
        Some(frame)
    }
}

} // verus!
