//! Generators answer, for an instant, which frame is due.

use vstd::prelude::*;
use crate::frame::{Frame, FrameView};

pub mod channel_time_queued;
pub mod fallback;
pub mod partition;
pub mod solid_color;
pub mod time_queued;
pub mod web;

verus! {

/// What an optional frame is.
pub open spec fn frame_view(frame: Option<Frame>) -> Option<FrameView> {
    match frame {
        Some(f) => Some(f@),
        None => None,
    }
}

/// A source of frames that is asked, at each instant, for the frame that is
/// due then. No frame means that nothing is due: the caller decides what
/// stays on the display.
///
/// A generator states what it does through `inv` and `answers`. One that
/// states nothing keeps the defaults: then every state is well-formed and any
/// answer is possible.
pub trait FrameGenerator {
    /// The generator's state is well-formed.
    open spec fn inv(&self) -> bool {
        true
    }

    /// Whether a query at `unix_micros`, made in this state, can answer
    /// `frame` and leave the generator in state `next`.
    open spec fn answers(
        &self,
        unix_micros: u128,
        next: &Self,
        frame: Option<FrameView>,
    ) -> bool {
        true
    }

    /// The frame that is due at `unix_micros`, if any. The query may advance
    /// the generator's scheduling state.
    fn generate(&mut self, unix_micros: u128) -> (frame: Option<Frame>)
        requires
            old(self).inv(),
        ensures
            final(self).inv(),
            old(self).answers(unix_micros, final(self), frame_view(frame)),
            frame matches Some(f) ==> f@.wf(),
    ;
}

/// A boxed generator is the generator in the box.
impl<T: FrameGenerator> FrameGenerator for Box<T> {
    open spec fn inv(&self) -> bool {
        (**self).inv()
    }

    open spec fn answers(
        &self,
        unix_micros: u128,
        next: &Self,
        frame: Option<FrameView>,
    ) -> bool {
        (**self).answers(unix_micros, &**next, frame)
    }

    fn generate(&mut self, unix_micros: u128) -> (frame: Option<Frame>) {
        (**self).generate(unix_micros)
    }
}

} // verus!
