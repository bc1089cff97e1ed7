//! Probing whether a frame would be superseded.

use vstd::prelude::*;
use crate::frame::gen::web::{channel_or_default, WebQueriedFrameGenerator};
use crate::web::api::{ACCEPTED, NOT_MODIFIED};
use crate::web::FrameSupersededCheckEvent;

verus! {

/// The answer to a probe: its status, and the panel's size for the producer to
/// learn from the headers.
#[derive(Clone, Copy, PartialEq, Eq, Structural, Debug)]
pub struct SupersededResponse {
    /// The status: `NOT_MODIFIED` if the frame is superseded, else `ACCEPTED`.
    pub status: u16,
    /// The width of the panel.
    pub display_width: u32,
    /// The height of the panel.
    pub display_height: u32,
}

/// Answers a probe for a frame of `channel`, or of channel 0 if none is given,
/// at `unix_micros`.
pub fn check_superseded_frame(
    generator: &WebQueriedFrameGenerator,
    channel: Option<i8>,
    unix_micros: u128,
) -> (response: SupersededResponse)
    requires
        generator.wf(),
    ensures
        response.status == if generator.queue().superseded(
            channel_or_default(channel),
            unix_micros,
        ) {
            NOT_MODIFIED
        } else {
            ACCEPTED
        },
        response.display_width == generator.panel().width,
        response.display_height == generator.panel().height,
{
    let is_obsolete = generator.on_frame_superseded_check(
        FrameSupersededCheckEvent { channel, unix_micros },
    );
    let panel = generator.display_dimensions();
    SupersededResponse {
        status: if is_obsolete {
            NOT_MODIFIED
        } else {
            ACCEPTED
        },
        display_width: panel.width,
        display_height: panel.height,
    }
}

} // verus!
