//! One tick of the presentation loop.

use vstd::prelude::*;
use crate::display::{Display, DisplayError};
use crate::frame::filler::FrameFiller;
use crate::frame::gen::{frame_view, FrameGenerator};
use crate::frame::FrameView;

verus! {

/// How a tick ended.
#[derive(Debug)]
pub enum TickOutcome {
    /// No frame was due: the display keeps what it shows.
    Idle,
    /// The frame that was due is on the display.
    Shown,
    /// The frame that was due did not reach the display. The loop goes on
    /// with the next tick.
    Failed(DisplayError),
}

/// The outcome of a tick whose frame the display has answered with `r`.
pub open spec fn outcome_of(r: Result<(), DisplayError>) -> TickOutcome {
    match r {
        Ok(_) => TickOutcome::Shown,
        Err(error) => TickOutcome::Failed(error),
    }
}

/// Whether a tick at which `frame` is due can end with `outcome` and leave
/// `display` as `next`: without a frame the display is left alone, as it is
/// with a frame that the filler refuses; any other frame is handed to the
/// display, fitted, and the display's answer decides.
pub open spec fn presents<D: Display, L: FrameFiller>(
    filler: &L,
    display: &D,
    frame: Option<FrameView>,
    next: &D,
    outcome: TickOutcome,
) -> bool {
    match frame {
        None => outcome is Idle && *next == *display,
        Some(due) => match filler.fitted(due, display.panel()) {
            Err(refusal) => outcome == TickOutcome::Failed(refusal) && *next == *display,
            Ok(pixels) => exists|r: Result<(), DisplayError>|
                #[trigger] display.takes(pixels, next, r) && outcome == outcome_of(r),
        },
    }
}

/// Runs the tick for the instant `unix_micros`: asks `frames` once for the
/// frame that is due and, if there is one, has `filler` push it to `display`.
pub fn sync_frames<D: Display, L: FrameFiller, G: FrameGenerator>(
    display: &mut D,
    filler: &L,
    frames: &mut G,
    unix_micros: u128,
) -> (outcome: TickOutcome)
    requires
        old(frames).inv(),
    ensures
        final(frames).inv(),
        final(display).panel() == old(display).panel(),
        exists|frame: Option<FrameView>|
            {
                &&& #[trigger] old(frames).answers(unix_micros, final(frames), frame)
                &&& presents(filler, old(display), frame, final(display), outcome)
            },
{
    let ghost shown_before = *display;
    let ghost generator_before = *frames;
    let frame = frames.generate(unix_micros);
    let ghost due = frame_view(frame);
    let outcome = match frame {
        None => TickOutcome::Idle,
        Some(frame) => match filler.push_to_display(frame, display) {
            Ok(()) => {
                assert(outcome_of(Ok(())) == TickOutcome::Shown);
                TickOutcome::Shown
            },
            Err(error) => {
                assert(outcome_of(Err(error)) == TickOutcome::Failed(error));
                TickOutcome::Failed(error)
            },
        },
    };
    proof {
        assert(generator_before.answers(unix_micros, frames, due));
        assert(presents(filler, &shown_before, due, display, outcome));
    }
    outcome
}

} // verus!
