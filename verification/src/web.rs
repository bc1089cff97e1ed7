//! What the web server hands to the scheduler, and what it answers.

use vstd::prelude::*;
use crate::frame::Frame;

pub mod api;

verus! {

/// A frame that a producer has submitted.
pub struct FrameReceivedEvent {
    /// The priority channel, if the producer named one.
    pub channel: Option<i8>,
    /// The presentation time, in microseconds since the Unix epoch.
    pub unix_micros: u128,
    /// The frame.
    pub frame: Frame,
}

/// A producer's question whether a frame would be shadowed.
#[derive(Clone, Copy, Debug)]
pub struct FrameSupersededCheckEvent {
    /// The priority channel, if the producer named one.
    pub channel: Option<i8>,
    /// The presentation time, in microseconds since the Unix epoch.
    pub unix_micros: u128,
}

} // verus!
