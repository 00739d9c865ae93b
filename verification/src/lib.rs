//! Core of a desktop reminder companion: decides which reminder-queue
//! entries are due at a given instant, resolves the display text that a
//! notification should carry, and records the fired transition.
//!
//! The surrounding process (store access, the notification sink, the
//! polling loop) performs the effects; everything that decides lives here.

pub mod display;
pub mod laws;
pub mod model;
pub mod scheduler;
pub mod timecmp;
