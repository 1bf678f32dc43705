//! A configuration-driven command dashboard.
//!
//! A configuration names shell commands and static directories. Each of them
//! becomes a route; an index page links to them; a request to a command route
//! shows what the command printed, wrapped in an HTML page. This crate holds
//! the rules of that dashboard: how pages are composed, how the outcome of a
//! process becomes text, and which route answers a path. Spawning processes,
//! reading files and serving HTTP are left to the program around it.

pub mod anchors;
mod clock;
pub mod config;
pub mod handler;
pub mod markup;
pub mod occurrences;
pub mod page;
pub mod process;
pub mod routes;
