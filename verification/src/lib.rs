//! Core of a hotkey-driven snippet tool: a fixed-capacity store of clip
//! entries, capability ports for the system clipboard and synthetic keyboard
//! input, a registry of global key combinations, and the dispatcher that turns
//! one hotkey notification into at most one reported action outcome.

pub mod config;
pub mod store;
pub mod ports;
pub mod doubles;
pub mod registry;
pub mod dispatcher;
