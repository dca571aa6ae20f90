//! Group decisions by reaction menu: a menu of numbered candidates is shown
//! in a channel, members vote by reacting, and closing the vote resolves a
//! winner.
//!
//! * `registry` keeps at most one live menu for each channel.
//! * `reactions` builds a menu from the nominated candidates and resolves a
//!   reaction against it.
//! * `votes` keeps at most one live vote for each voter of a guild.
//! * `handler` decides, step by step, what a reaction leads to.
//! * `commands` closes a vote: it counts, resolves the winner and logs it.
//! * `stores` holds the menus, the votes and the winner log in memory.
//!
//! The stores are plain values. A caller that keeps its state in outside
//! services performs the actions that `handler::reaction::ReactionRouter`
//! hands out and uses the same decisions.

pub mod checks;
pub mod commands;
pub mod embed;
pub mod error;
pub mod handler;
pub mod json;
pub mod logger;
pub mod model;
mod random;
pub mod reactions;
pub mod registry;
pub mod stores;
pub mod table;
pub mod text;
pub mod votes;
pub mod winners;
