//! Temporal frame scheduling for a fixed-resolution pixel display.
//!
//! Producers submit time-stamped frames on priority channels; the scheduler
//! picks the frame due at each display tick, falls back to a default pattern
//! when idle, and letterboxes frames that are smaller than the panel.

pub mod blocking_option;
pub mod config;
pub mod display;
pub mod frame;
pub mod run;
pub mod startup;
pub mod web;
