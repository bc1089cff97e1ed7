//! The rules of the HTTP surface: limits, validation and status codes.

use vstd::prelude::*;

pub mod error;
pub mod frame;

verus! {

/// The status of a frame that was taken, and of a probe whose frame is not
/// superseded.
pub const ACCEPTED: u16 = 202;

/// The status of a probe whose frame is superseded.
pub const NOT_MODIFIED: u16 = 304;

/// The status of a frame that is larger than the panel.
pub const BAD_REQUEST: u16 = 400;

/// The status of a frame whose pixel data does not match its size.
pub const NOT_ACCEPTABLE: u16 = 406;

/// The status of a body over the limit.
pub const PAYLOAD_TOO_LARGE: u16 = 413;

/// The status of pixel data that is no base64.
pub const UNPROCESSABLE_ENTITY: u16 = 422;

/// The status of a failure that nothing else classifies.
pub const INTERNAL_SERVER_ERROR: u16 = 500;

/// The most bytes that the body of a probe may have.
pub const HEAD_BODY_LIMIT: u128 = 1024;

/// The most bytes that the body of a submission may have on a panel of the
/// given size: five for each pixel, which leaves room for the encoding, and
/// `HEAD_BODY_LIMIT` more.
pub fn post_body_limit(display_width: u32, display_height: u32) -> (limit: u128)
    ensures
        limit == display_width * display_height * 5 + HEAD_BODY_LIMIT,
{
    assert(display_width * display_height <= 0xffff_ffff * 0xffff_ffff) by (nonlinear_arith)
        requires
            display_width <= 0xffff_ffff,
            display_height <= 0xffff_ffff,
    ;
    (display_width as u128) * (display_height as u128) * 5 + HEAD_BODY_LIMIT
}

} // verus!
