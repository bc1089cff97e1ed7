//! Submitting frames and probing for supersession.

pub mod data;
pub mod decoding;
pub mod read;
pub mod write;
