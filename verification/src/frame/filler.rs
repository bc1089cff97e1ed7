//! Fillers bring a frame onto a display.

use vstd::prelude::*;
use crate::display::{Dimensions, Display, DisplayError, Pixel};
use crate::frame::{Frame, FrameView};

pub mod letterboxing;

verus! {

/// A way to bring a frame onto a display whose panel may differ in size.
pub trait FrameFiller {
    /// The full-panel buffer that stands for `frame` on a panel of size
    /// `panel`, or the reason why the filler refuses the frame.
    spec fn fitted(&self, frame: FrameView, panel: Dimensions) -> Result<Seq<Pixel>, DisplayError>;

    /// Hands `frame`, fitted to the panel, to `display`.
    ///
    /// A frame that the filler refuses leaves the display alone. Any other
    /// reaches the display as the fitted buffer, and the display's own answer
    /// is passed on.
    fn push_to_display<D: Display>(&self, frame: Frame, display: &mut D) -> (r: Result<
        (),
        DisplayError,
    >)
        ensures
            final(display).panel() == old(display).panel(),
            match self.fitted(frame@, old(display).panel()) {
                Ok(pixels) => old(display).takes(pixels, final(display), r),
                Err(refusal) => r == Err::<(), DisplayError>(refusal) && *final(display) == *old(
                    display,
                ),
            },
    ;
}

} // verus!
