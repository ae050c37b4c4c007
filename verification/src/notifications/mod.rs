//! Human notifications: fire-and-forget signals from agents to humans.
//! Unlike approvals they create no wait, touch no inbox and change no
//! session state.

pub mod emit;
pub mod tool;
pub mod types;
