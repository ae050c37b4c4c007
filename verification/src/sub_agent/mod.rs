//! Sub-agent results as the parent session sees them.

pub mod outcome;
