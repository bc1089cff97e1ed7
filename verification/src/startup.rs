//! How the parts are set up for a panel.

use vstd::prelude::*;
use crate::display::{Dimensions, Pixel};
use crate::frame::filler::letterboxing::LetterboxingDisplayFiller;
use crate::frame::gen::fallback::FallbackFrameGenerator;
use crate::frame::gen::solid_color::{solid_frame, SolidColorFrameGenerator};
use crate::frame::gen::FrameGenerator;

verus! {

/// The idle window where the configuration names none: one second.
pub const DEFAULT_IDLE_MICROS: u128 = 1_000_000;

/// Black.
pub open spec fn black() -> Pixel {
    Pixel { r: 0, g: 0, b: 0 }
}

/// The colour of the padding and of the pattern that is shown when idle.
pub fn idle_color() -> (color: Pixel)
    ensures
        color == black(),
{
    Pixel { r: 0, g: 0, b: 0 }
}

/// The idle window of the channel queue: the configured one as it is, or the
/// default.
pub open spec fn queue_idle(idle_micros: Option<u128>) -> u128 {
    match idle_micros {
        Some(idle) => idle,
        None => DEFAULT_IDLE_MICROS,
    }
}

/// The idle duration of the fallback: the idle window of the queue, but no
/// less than one tick.
pub open spec fn fallback_idle(idle_micros: Option<u128>, tick_period_micros: u128) -> u128 {
    if queue_idle(idle_micros) < tick_period_micros {
        tick_period_micros
    } else {
        queue_idle(idle_micros)
    }
}

/// The idle window of the channel queue, in microseconds.
pub fn queue_idle_micros(idle_micros: Option<u128>) -> (idle: u128)
    ensures
        idle == queue_idle(idle_micros),
{
    match idle_micros {
        Some(idle) => idle,
        None => DEFAULT_IDLE_MICROS,
    }
}

/// The idle duration of the fallback, in microseconds, where a tick lasts
/// `tick_period_micros`.
pub fn fallback_idle_micros(idle_micros: Option<u128>, tick_period_micros: u128) -> (idle: u128)
    ensures
        idle == fallback_idle(idle_micros, tick_period_micros),
{
    let idle = queue_idle_micros(idle_micros);
    if idle < tick_period_micros {
        tick_period_micros
    } else {
        idle
    }
}

/// The generator that the tick loop asks: `base` over a black pattern as
/// large as the panel, which takes over once `base` has been idle
/// for the fallback's idle duration.
pub fn generator_stack<B: FrameGenerator>(
    base: B,
    panel: Dimensions,
    idle_micros: Option<u128>,
    tick_period_micros: u128,
) -> (generator: FallbackFrameGenerator<B, SolidColorFrameGenerator>)
    requires
        base.inv(),
    ensures
        generator.inv(),
        generator.base() == base,
        generator.fallback().pattern() == solid_frame(black(), panel.width, panel.height),
        generator.idle_duration() == fallback_idle(idle_micros, tick_period_micros),
        generator.last_real_frame() is None,
{
    FallbackFrameGenerator::new(
        base,
        SolidColorFrameGenerator::new(idle_color(), panel.width, panel.height),
        fallback_idle_micros(idle_micros, tick_period_micros),
    )
}

/// The filler that the tick loop uses: it pads with black.
pub fn default_filler() -> (filler: LetterboxingDisplayFiller)
    ensures
        filler.background() == black(),
{
    LetterboxingDisplayFiller::new(idle_color())
}

} // verus!
