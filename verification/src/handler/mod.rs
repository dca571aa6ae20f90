//! What is done when an event comes in.

pub mod reaction;
