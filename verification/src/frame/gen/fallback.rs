//! A generator that falls back to a default once its base has been idle for a
//! while.

use vstd::prelude::*;
use crate::frame::gen::{frame_view, FrameGenerator};
use crate::frame::{Frame, FrameView};

verus! {

/// Whether a query at `now` falls into the grace period after the last frame
/// of the base: there was such a frame, and less than `idle_duration`
/// microseconds lie between it and `now`. A query for an instant before that
/// frame falls into it too.
pub open spec fn in_grace(last_real_frame: Option<u128>, now: u128, idle_duration: u128) -> bool {
    last_real_frame matches Some(last) && now - last < idle_duration
}

/// What the fallback generator does with the answer of its base.
pub enum Resolution {
    /// The base answered a frame: it is presented.
    Present(FrameView),
    /// The base answered nothing within the grace period: nothing is presented.
    Hold,
    /// The base answered nothing and has been idle: the fallback is asked.
    AskFallback,
}

/// How the answer of the base at `now` is resolved.
pub open spec fn resolution(
    last_real_frame: Option<u128>,
    idle_duration: u128,
    now: u128,
    base_frame: Option<FrameView>,
) -> Resolution {
    match base_frame {
        Some(frame) => Resolution::Present(frame),
        None => if in_grace(last_real_frame, now, idle_duration) {
            Resolution::Hold
        } else {
            Resolution::AskFallback
        },
    }
}

/// The instant of the last frame of the base, after the base has answered
/// `base_frame` at `now`.
pub open spec fn last_real_frame_after(
    last_real_frame: Option<u128>,
    now: u128,
    base_frame: Option<FrameView>,
) -> Option<u128> {
    if base_frame is Some {
        Some(now)
    } else {
        last_real_frame
    }
}

/// Layers a base generator over a fallback: the fallback answers only when
/// the base has answered nothing for the idle duration.
pub struct FallbackFrameGenerator<B: FrameGenerator, F: FrameGenerator> {
    base_generator: B,
    fallback_generator: F,
    idle_duration_micros: u128,
    last_frame_instant: Option<u128>,
}

impl<B: FrameGenerator, F: FrameGenerator> FallbackFrameGenerator<B, F> {
    /// The base generator.
    pub closed spec fn base(&self) -> B {
        self.base_generator
    }

    /// The generator that answers when the base is idle.
    pub closed spec fn fallback(&self) -> F {
        self.fallback_generator
    }

    /// How long after a frame of the base nothing else is presented, in
    /// microseconds.
    pub closed spec fn idle_duration(&self) -> u128 {
        self.idle_duration_micros
    }

    /// The instant of the last query at which the base answered a frame.
    pub closed spec fn last_real_frame(&self) -> Option<u128> {
        self.last_frame_instant
    }

    /// A generator that asks `base_generator` first and `fallback_generator`
    /// once the base has been idle for `idle_duration_micros` microseconds.
    pub fn new(base_generator: B, fallback_generator: F, idle_duration_micros: u128) -> (generator:
        Self)
        ensures
            generator.base() == base_generator,
            generator.fallback() == fallback_generator,
            generator.idle_duration() == idle_duration_micros,
            generator.last_real_frame() is None,
    {
        Self {
            base_generator,
            fallback_generator,
            idle_duration_micros,
            last_frame_instant: None,
        }
    }

    /// The instant of the last query at which the base answered a frame.
    pub fn last_real_frame_micros(&self) -> (last: Option<u128>)
        ensures
            last == self.last_real_frame(),
    {
        self.last_frame_instant
    }

    /// The base generator.
    pub fn base_generator(&self) -> (base: &B)
        ensures
            *base == self.base(),
    {
        &self.base_generator
    }

    /// Whether the generator, whose base has answered `base_frame` at
    /// `unix_micros` and is in state `next_base` now, can answer `frame` and
    /// be in state `next` afterwards.
    pub open spec fn resolves(
        &self,
        unix_micros: u128,
        base_frame: Option<FrameView>,
        next_base: B,
        next: &Self,
        frame: Option<FrameView>,
    ) -> bool {
        &&& next.base() == next_base
        &&& next.idle_duration() == self.idle_duration()
        &&& next.last_real_frame() == last_real_frame_after(
            self.last_real_frame(),
            unix_micros,
            base_frame,
        )
        &&& match resolution(
            self.last_real_frame(),
            self.idle_duration(),
            unix_micros,
            base_frame,
        ) {
            Resolution::Present(given) => frame == Some(given) && next.fallback()
                == self.fallback(),
            Resolution::Hold => frame is None && next.fallback() == self.fallback(),
            Resolution::AskFallback => self.fallback().answers(
                unix_micros,
                &next.fallback(),
                frame,
            ),
        }
    }

    /// Resolves the answer `base_frame` that the base gave at `unix_micros`:
    /// a frame is passed on and remembered as the last sign of life; without
    /// one, nothing is presented during the grace period, and the fallback is
    /// asked after it.
    pub fn resolve(&mut self, unix_micros: u128, base_frame: Option<Frame>) -> (frame: Option<
        Frame,
    >)
        requires
            old(self).fallback().inv(),
        ensures
            final(self).fallback().inv(),
            old(self).resolves(
                unix_micros,
                frame_view(base_frame),
                old(self).base(),
                final(self),
                frame_view(frame),
            ),
            frame matches Some(f) ==> f@.wf(),
    {
        if let Some(given) = base_frame {
            let _ = given.dimensions();
            self.last_frame_instant = Some(unix_micros);
            return Some(given);
        }
        if let Some(last) = self.last_frame_instant {
            if unix_micros < last || unix_micros - last < self.idle_duration_micros {
                return None;
            }
        }
        self.fallback_generator.generate(unix_micros)
    }
}

/// A frame of the base at `alive` makes `alive` the instant of the last frame,
/// whatever it was before. From then on every query before
/// `alive + idle_duration` at which the base answers nothing is held, and
/// leaves that instant as it is: so the same holds of the next such query,
/// and of every such query in a row.
pub proof fn lemma_held_while_idle(
    last_real_frame: Option<u128>,
    idle_duration: u128,
    alive: u128,
    frame: FrameView,
    now: u128,
)
    requires
        now < alive + idle_duration,
    ensures
        last_real_frame_after(last_real_frame, alive, Some(frame)) == Some(alive),
        resolution(Some(alive), idle_duration, now, None) == Resolution::Hold,
        last_real_frame_after(Some(alive), now, None) == Some(alive),
{
}

/// A generator whose base answered its last frame less than the idle duration
/// before `now`, and answers nothing at `now`, presents nothing and stays as
/// it is but for its base: neither the fallback is asked nor the grace period
/// moved.
pub proof fn lemma_generator_holds_while_idle<B: FrameGenerator, F: FrameGenerator>(
    generator: FallbackFrameGenerator<B, F>,
    now: u128,
    next_base: B,
    next: FallbackFrameGenerator<B, F>,
    frame: Option<FrameView>,
)
    requires
        generator.last_real_frame() matches Some(alive) && now < alive
            + generator.idle_duration(),
        generator.resolves(now, None, next_base, &next, frame),
    ensures
        frame is None,
        next.last_real_frame() == generator.last_real_frame(),
        next.idle_duration() == generator.idle_duration(),
        next.fallback() == generator.fallback(),
{
}

impl<B: FrameGenerator, F: FrameGenerator> FrameGenerator for FallbackFrameGenerator<B, F> {
    open spec fn inv(&self) -> bool {
        self.base().inv() && self.fallback().inv()
    }

    /// The base is asked first, and its answer is resolved.
    open spec fn answers(
        &self,
        unix_micros: u128,
        next: &Self,
        frame: Option<FrameView>,
    ) -> bool {
        exists|base_frame: Option<FrameView>|
            {
                &&& #[trigger] self.base().answers(unix_micros, &next.base(), base_frame)
                &&& self.resolves(unix_micros, base_frame, next.base(), next, frame)
            }
    }

    /// The frame of the base where it answers one; nothing during the grace
    /// period after its last frame; the answer of the fallback otherwise.
    fn generate(&mut self, unix_micros: u128) -> (frame: Option<Frame>) {
        let ghost before = *self;
        let base_frame = self.base_generator.generate(unix_micros);
        let ghost seen = frame_view(base_frame);
        let frame = self.resolve(unix_micros, base_frame);
        proof {
            assert(before.base().answers(unix_micros, &self.base(), seen));
        }
        frame
    }
}

} // verus!
