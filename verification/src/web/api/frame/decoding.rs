//! From the text of a submission to pixels.

use vstd::prelude::*;
use base64::alphabet::STANDARD;
use base64::engine::{DecodePaddingMode, GeneralPurpose, GeneralPurposeConfig};
use base64::Engine;
use crate::display::Pixel;

verus! {

/// The error of the base64 decoder.
#[verifier::external_type_specification]
#[verifier::external_body]
pub struct ExDecodeError(base64::DecodeError);

/// The bytes that `text` stands for in base64 with the standard alphabet,
/// whether or not it is padded; `None` where `text` is no such base64.
pub uninterp spec fn base64_decoded(text: Seq<char>) -> Option<Seq<u8>>;

/// Decodes `text` with `base64::Engine::decode_vec` on a general-purpose
/// engine for the standard alphabet that is indifferent to padding.
///
/// Believed, not proved: the outcome is a function of the text alone, success
/// with the decoded bytes or failure, and `base64_decoded` names it.
#[verifier::external_body]
fn decode_base64(text: &str) -> (r: Result<Vec<u8>, base64::DecodeError>)
    ensures
        match r {
            Ok(bytes) => base64_decoded(text@) == Some(bytes@),
            Err(_) => base64_decoded(text@) is None,
        },
{
    let config = GeneralPurposeConfig::new().with_decode_padding_mode(
        DecodePaddingMode::Indifferent,
    );
    let engine = GeneralPurpose::new(&STANDARD, config);
    let mut bytes = Vec::new();
    match engine.decode_vec(text, &mut bytes) {
        Ok(()) => Ok(bytes),
        Err(error) => Err(error),
    }
}

/// The text of a decoder error, as its `Display` writes it. Nothing is claimed
/// of the text.
#[verifier::external_body]
fn decode_error_text(error: &base64::DecodeError) -> (text: String) {
    format!("{}", error)
}

/// The bytes that `text` stands for, or the decoder's words on why it stands
/// for none.
pub fn decode_pixel_bytes(text: &str) -> (r: Result<Vec<u8>, String>)
    ensures
        match r {
            Ok(bytes) => base64_decoded(text@) == Some(bytes@),
            Err(_) => base64_decoded(text@) is None,
        },
{
    match decode_base64(text) {
        Ok(bytes) => Ok(bytes),
        Err(error) => Err(decode_error_text(&error)),
    }
}

/// The pixels that raw RGB bytes hold: one for every three bytes, red first.
/// Bytes behind the last full pixel do not count.
pub open spec fn pixels_of(bytes: Seq<u8>) -> Seq<Pixel> {
    Seq::new(
        (bytes.len() / 3) as nat,
        |i: int| Pixel { r: bytes[3 * i], g: bytes[3 * i + 1], b: bytes[3 * i + 2] },
    )
}

/// The pixels that raw RGB bytes hold.
pub fn pixels_from_rgb(bytes: &Vec<u8>) -> (pixels: Vec<Pixel>)
    ensures
        pixels@ == pixels_of(bytes@),
{
    let count = bytes.len() / 3;
    let mut pixels: Vec<Pixel> = Vec::new();
    let mut i: usize = 0;
    while i < count
        invariant
            i <= count,
            count == bytes@.len() / 3,
            bytes@.len() <= usize::MAX,
            pixels@ == pixels_of(bytes@).take(i as int),
        decreases count - i,
    {
        assert(3 * i + 2 < bytes@.len());
        let pixel = Pixel { r: bytes[3 * i], g: bytes[3 * i + 1], b: bytes[3 * i + 2] };
        pixels.push(pixel);
        assert(pixels@ == pixels_of(bytes@).take(i + 1)) by {
            assert(pixels_of(bytes@).take(i + 1) == pixels_of(bytes@).take(i as int).push(
                pixels_of(bytes@)[i as int],
            ));
        }
        i = i + 1;
    }
    assert(pixels_of(bytes@).take(count as int) == pixels_of(bytes@));
    pixels
}

/// The raw RGB bytes of pixels: three for each, red first.
pub open spec fn rgb_of(pixels: Seq<Pixel>) -> Seq<u8> {
    Seq::new(
        pixels.len() * 3,
        |i: int|
            if i % 3 == 0 {
                pixels[i / 3].r
            } else if i % 3 == 1 {
                pixels[i / 3].g
            } else {
                pixels[i / 3].b
            },
    )
}

/// The raw RGB bytes of pixels, as the drivers that take bytes want them.
pub fn rgb_from_pixels(pixels: &Vec<Pixel>) -> (bytes: Vec<u8>)
    ensures
        bytes@ == rgb_of(pixels@),
{
    let mut bytes: Vec<u8> = Vec::new();
    let mut i: usize = 0;
    while i < pixels.len()
        invariant
            i <= pixels.len(),
            bytes@.len() == 3 * i,
            bytes@ == rgb_of(pixels@).take(3 * i),
        decreases pixels.len() - i,
    {
        let pixel = pixels[i];
        let ghost target = rgb_of(pixels@);
        bytes.push(pixel.r);
        bytes.push(pixel.g);
        bytes.push(pixel.b);
        assert(bytes@ == target.take(3 * i + 3)) by {
            assert(target.take(3 * i + 3) == target.take(3 * i).push(target[3 * i]).push(
                target[3 * i + 1],
            ).push(target[3 * i + 2]));
        }
        i = i + 1;
    }
    assert(rgb_of(pixels@).take(3 * pixels.len()) == rgb_of(pixels@));
    bytes
}

} // verus!
