//! Core of a chat bot that answers cryptocurrency price queries: a command
//! parser over a small fixed command set, and a quote client that reads the
//! price out of the upstream JSON response and renders it for display.

pub mod ascii;
pub mod commands;
pub mod json;
pub mod money;
pub mod quote;
pub mod laws;
