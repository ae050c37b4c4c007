//! Runtime configuration: the runtime and approvals sections, how per-agent
//! settings resolve against runtime defaults, and validation.
//!
//! Durations and instants are nanoseconds.

pub mod approvals_section;
pub mod resolution;
pub mod runtime_section;
pub mod validation;

pub use approvals_section::ApprovalsConfig;
pub use resolution::{
    HARD_APPROVAL_TTL_FALLBACK, SessionDeadline, cap_ticket_expiry, resolve_approval_ttl, resolve_child_ttl,
    resolve_max_turns, resolve_session_ttl,
};
pub use runtime_section::{PersistenceBackend, RuntimeConfig};
pub use validation::{ConfigError, validate};

use vstd::prelude::*;
use crate::agents::AgentConfig;

verus! {

/// The whole configuration file.
#[derive(Debug)]
pub struct Config {
    pub runtime: RuntimeConfig,
    pub approvals: ApprovalsConfig,
    pub orchestrator: AgentConfig,
    /// Sub-agent configurations by name.
    pub agents: Vec<(String, AgentConfig)>,
}

} // verus!
