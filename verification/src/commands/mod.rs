//! The commands that act on the vote.

pub mod movie;
