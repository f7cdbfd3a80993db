//! Per-conversation sleep timers: interval logs, a registry keyed by
//! conversation, and the text replies of the timer commands.

pub mod interval;
pub mod text;
pub mod registry;
pub mod commands;
pub mod laws;
