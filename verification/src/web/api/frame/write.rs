//! Submitting a frame.

use vstd::prelude::*;
use crate::display::Dimensions;
use crate::frame::gen::channel_time_queued::QueuedEntry;
use crate::frame::gen::web::{channel_or_default, WebQueriedFrameGenerator};
use crate::frame::{Frame, FrameError, FrameView};
use crate::web::api::error::ResponseError;
use crate::web::api::frame::data::FrameSubmitData;
use crate::web::api::frame::decoding::{
    base64_decoded,
    decode_pixel_bytes,
    pixels_from_rgb,
    pixels_of,
};
use crate::web::api::{ACCEPTED, BAD_REQUEST, NOT_ACCEPTABLE, UNPROCESSABLE_ENTITY};
use crate::web::FrameReceivedEvent;

verus! {

/// The status that answers a submission of `width` by `height` pixels whose
/// pixel data has been decoded to `bytes`: the number of bytes is checked
/// first, then the size against the panel.
pub open spec fn submission_status(
    panel: Dimensions,
    width: u32,
    height: u32,
    bytes: Seq<u8>,
) -> u16 {
    if bytes.len() != width * height * 3 {
        NOT_ACCEPTABLE
    } else if !panel.holds(Dimensions { width, height }) {
        BAD_REQUEST
    } else {
        ACCEPTED
    }
}

/// The entry that a submission puts into the queue.
pub open spec fn submitted_entry(
    channel: Option<i8>,
    unix_micros: u128,
    width: u32,
    height: u32,
    bytes: Seq<u8>,
) -> QueuedEntry {
    QueuedEntry {
        channel: channel_or_default(channel),
        unix_micros,
        frame: FrameView { width, height, pixels: pixels_of(bytes) },
    }
}

/// The status that a request was answered with.
pub open spec fn status_of(r: Result<u16, ResponseError>) -> u16 {
    match r {
        Ok(status) => status,
        Err(error) => error.code(),
    }
}

/// Whether `generator`, handed a submission with decoded pixel data `bytes`,
/// answers `r` and is `next` afterwards: it answers the submission's status,
/// and takes the frame into its queue exactly if that is `ACCEPTED`.
pub open spec fn submits(
    generator: &WebQueriedFrameGenerator,
    channel: Option<i8>,
    unix_micros: u128,
    width: u32,
    height: u32,
    bytes: Seq<u8>,
    next: &WebQueriedFrameGenerator,
    r: Result<u16, ResponseError>,
) -> bool {
    let status = submission_status(generator.panel(), width, height, bytes);
    &&& next.panel() == generator.panel()
    &&& status_of(r) == status
    &&& r is Ok <==> status == ACCEPTED
    &&& next.queue() == if status == ACCEPTED {
        generator.queue().add(submitted_entry(channel, unix_micros, width, height, bytes))
    } else {
        generator.queue()
    }
}

/// The text of the error that answers a submission with `status`.
pub open spec fn refusal_text(status: u16) -> Seq<char> {
    if status == NOT_ACCEPTABLE {
        "the amount of provided pixels does not correspond to the dimensions of the frame"@
    } else {
        "frame too large"@
    }
}

/// Submits a frame of `width` by `height` pixels whose pixel data has been
/// decoded to `bytes`, three bytes for each pixel.
///
/// Bytes that are not exactly `width * height * 3` are answered with
/// `NOT_ACCEPTABLE`, a frame that is larger than the panel with
/// `BAD_REQUEST`. Any other frame goes into the queue and is answered with
/// `ACCEPTED`.
pub fn enqueue_pixel_bytes(
    generator: &mut WebQueriedFrameGenerator,
    channel: Option<i8>,
    unix_micros: u128,
    width: u32,
    height: u32,
    bytes: Vec<u8>,
) -> (r: Result<u16, ResponseError>)
    requires
        old(generator).wf(),
    ensures
        final(generator).wf(),
        submits(old(generator), channel, unix_micros, width, height, bytes@, final(generator), r),
        r matches Err(error) ==> error.text() == refusal_text(error.code()),
{
    assert(width * height <= 0xffff_ffff * 0xffff_ffff) by (nonlinear_arith)
        requires
            width <= 0xffff_ffff,
            height <= 0xffff_ffff,
    ;
    let expected = (width as u128) * (height as u128) * 3;
    if bytes.len() as u128 != expected {
        return Err(ResponseError::new(NOT_ACCEPTABLE, FrameError::DimensionMismatch.message()));
    }
    let pixels = pixels_from_rgb(&bytes);
    let frame = match Frame::new(width, height, pixels) {
        Ok(frame) => frame,
        Err(error) => {
            return Err(ResponseError::new(NOT_ACCEPTABLE, error.message()));
        },
    };
    match generator.on_frame_received(FrameReceivedEvent { channel, unix_micros, frame }) {
        Ok(()) => Ok(ACCEPTED),
        Err(text) => Err(ResponseError::new(BAD_REQUEST, text)),
    }
}

/// Submits the frame of `data` for `unix_micros` on `channel`, or on channel 0
/// if none is given.
///
/// Pixel data that is no base64 is answered with `UNPROCESSABLE_ENTITY` and
/// changes nothing. Pixel data that decodes is submitted as
/// `enqueue_pixel_bytes` does.
pub fn enqueue_frame(
    generator: &mut WebQueriedFrameGenerator,
    channel: Option<i8>,
    unix_micros: u128,
    data: FrameSubmitData,
) -> (r: Result<u16, ResponseError>)
    requires
        old(generator).wf(),
    ensures
        final(generator).wf(),
        match base64_decoded(data.frame.pixels_b64@) {
            Some(bytes) => submits(
                old(generator),
                channel,
                unix_micros,
                data.frame.width,
                data.frame.height,
                bytes,
                final(generator),
                r,
            ),
            None => {
                &&& r matches Err(error) && error.code() == UNPROCESSABLE_ENTITY
                &&& final(generator).panel() == old(generator).panel()
                &&& final(generator).queue() == old(generator).queue()
            },
        },
        r matches Err(error) ==> error.code() == UNPROCESSABLE_ENTITY || error.text()
            == refusal_text(error.code()),
{
    match decode_pixel_bytes(data.frame.pixels_b64.as_str()) {
        Err(text) => Err(ResponseError::new(UNPROCESSABLE_ENTITY, text)),
        Ok(bytes) => enqueue_pixel_bytes(
            generator,
            channel,
            unix_micros,
            data.frame.width,
            data.frame.height,
            bytes,
        ),
    }
}

} // verus!
