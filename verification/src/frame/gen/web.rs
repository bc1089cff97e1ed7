//! The generator that producers feed over the web: a channel queue behind the
//! checks that a submitted frame has to pass.

use vstd::prelude::*;
use crate::display::Dimensions;
use crate::frame::gen::channel_time_queued::{
    frame_of,
    ChannelTimeQueuedFrameGenerator,
    QueueView,
    QueuedEntry,
};
use crate::frame::gen::FrameGenerator;
use crate::frame::{Frame, FrameView};
use crate::web::{FrameReceivedEvent, FrameSupersededCheckEvent};

verus! {

/// The most frames that the queue behind the web holds.
pub const QUEUE_CAPACITY: usize = 2_500;

/// The channel of a frame that was submitted without one.
pub const DEFAULT_CHANNEL: i8 = 0;

/// The channel that a submission counts for.
pub open spec fn channel_or_default(channel: Option<i8>) -> i8 {
    match channel {
        Some(c) => c,
        None => DEFAULT_CHANNEL,
    }
}

/// How the generator is set up.
#[derive(Clone, Copy, Debug)]
pub struct WebQueriedFrameGeneratorConfig {
    /// How long a frame shadows lower channels, in microseconds.
    pub channel_idle_micros: u128,
    /// The width of the panel.
    pub display_width: u32,
    /// The height of the panel.
    pub display_height: u32,
}

/// A channel queue that takes the frames received over the web, if they fit
/// the panel, and answers supersession probes.
pub struct WebQueriedFrameGenerator {
    config: WebQueriedFrameGeneratorConfig,
    time_queued_frame_generator: ChannelTimeQueuedFrameGenerator,
}

impl WebQueriedFrameGenerator {
    /// The queue of submitted frames.
    pub closed spec fn queue(&self) -> QueueView {
        self.time_queued_frame_generator@
    }

    /// The size of the panel that frames have to fit.
    pub closed spec fn panel(&self) -> Dimensions {
        Dimensions { width: self.config.display_width, height: self.config.display_height }
    }

    /// The queue is well-formed.
    pub open spec fn wf(&self) -> bool {
        self.queue().wf()
    }

    /// A generator with an empty queue of capacity `QUEUE_CAPACITY`.
    pub fn new(config: WebQueriedFrameGeneratorConfig) -> (generator: Self)
        ensures
            generator.wf(),
            generator.panel() == (Dimensions {
                width: config.display_width,
                height: config.display_height,
            }),
            generator.queue() == (QueueView {
                entries: Seq::empty(),
                last_served: None,
                capacity: QUEUE_CAPACITY as nat,
                idle_window: config.channel_idle_micros,
                submitted: Set::empty(),
            }),
    {
        let queue = ChannelTimeQueuedFrameGenerator::new(
            QUEUE_CAPACITY,
            config.channel_idle_micros,
        );
        Self { config, time_queued_frame_generator: queue }
    }

    /// The size of the panel that frames have to fit.
    pub fn display_dimensions(&self) -> (d: Dimensions)
        ensures
            d == self.panel(),
    {
        Dimensions { width: self.config.display_width, height: self.config.display_height }
    }

    /// The number of frames that wait in the queue.
    pub fn queued(&self) -> (n: usize)
        ensures
            n == self.queue().entries.len(),
    {
        self.time_queued_frame_generator.len()
    }

    /// Takes a frame that was received: one that is wider or taller than the
    /// panel is refused, any other is submitted to the queue, on channel 0 if
    /// the event names none.
    pub fn on_frame_received(&mut self, event: FrameReceivedEvent) -> (r: Result<(), String>)
        requires
            old(self).wf(),
        ensures
            final(self).wf(),
            final(self).panel() == old(self).panel(),
            r is Ok <==> old(self).panel().holds(event.frame@.dimensions()),
            r is Ok ==> final(self).queue() == old(self).queue().add(
                QueuedEntry {
                    channel: channel_or_default(event.channel),
                    unix_micros: event.unix_micros,
                    frame: event.frame@,
                },
            ),
            r matches Err(text) ==> text@ == "frame too large"@ && final(self).queue() == old(
                self,
            ).queue(),
    {
        let size = event.frame.dimensions();
        if size.width > self.config.display_width || size.height > self.config.display_height {
            return Err("frame too large".to_owned());
        }
        let channel = match event.channel {
            Some(c) => c,
            None => DEFAULT_CHANNEL,
        };
        self.time_queued_frame_generator.add_frame(channel, event.unix_micros, event.frame);
        Ok(())
    }

    /// Whether a frame of the event's channel and time would be shadowed if it
    /// were submitted; channel 0 if the event names none.
    pub fn on_frame_superseded_check(&self, event: FrameSupersededCheckEvent) -> (superseded:
        bool)
        requires
            self.wf(),
        ensures
            superseded == self.queue().superseded(
                channel_or_default(event.channel),
                event.unix_micros,
            ),
    {
        let channel = match event.channel {
            Some(c) => c,
            None => DEFAULT_CHANNEL,
        };
        self.time_queued_frame_generator.is_frame_superseded(channel, event.unix_micros)
    }
}

impl FrameGenerator for WebQueriedFrameGenerator {
    open spec fn inv(&self) -> bool {
        self.wf()
    }

    /// A query is a query of the queue.
    open spec fn answers(
        &self,
        unix_micros: u128,
        next: &Self,
        frame: Option<FrameView>,
    ) -> bool {
        &&& next.panel() == self.panel()
        &&& next.queue() == self.queue().after_query(unix_micros)
        &&& frame == frame_of(self.queue().served(unix_micros))
    }

    /// The frame of the queue that is due at `unix_micros`.
    fn generate(&mut self, unix_micros: u128) -> (frame: Option<Frame>)
        ensures
            frame matches Some(f) ==> exists|e: QueuedEntry|
                #[trigger] old(self).queue().submitted.contains(e) && e.frame == f@
                    && e.unix_micros <= unix_micros,
    {
        self.time_queued_frame_generator.generate(unix_micros)
    }
}

} // verus!
