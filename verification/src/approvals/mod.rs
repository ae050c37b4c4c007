//! Human-in-the-loop approval of gated actions: tickets, their lifecycle,
//! signatures over decisions and the runtime checkpoint that consumes them.

pub mod outcome;
pub mod types;
pub mod canonical;
pub mod canonical_laws;
pub mod signing;
pub mod correlation;
pub mod gateway;
pub mod sweep;
pub mod expiry_task;
pub mod tools;
pub mod ttl;
pub mod registry;
