//! The `runtime:` section.

use vstd::prelude::*;

verus! {

/// Where sessions are persisted.
#[derive(Debug, Clone, Copy, PartialEq, Eq, Structural)]
pub enum PersistenceBackend {
    Memory,
    Sqlite,
}

/// Runtime-wide defaults. Durations are nanoseconds.
#[derive(Debug, Clone, Copy, PartialEq, Eq, Structural)]
pub struct RuntimeConfig {
    pub default_max_turns: u32,
    pub default_session_ttl: Option<u64>,
    pub default_child_ttl: u64,
    pub child_ttl_margin: u64,
    pub approval_default_ttl: Option<u64>,
    pub persistence: PersistenceBackend,
}

/// Forty turns; no session lifetime; children get thirty minutes, thirty
/// seconds short of their parent's deadline; no approval default; memory.
pub open spec fn default_runtime_config() -> RuntimeConfig {
    RuntimeConfig {
        default_max_turns: 40,
        default_session_ttl: None,
        default_child_ttl: 1_800_000_000_000u64,
        child_ttl_margin: 30_000_000_000u64,
        approval_default_ttl: None,
        persistence: PersistenceBackend::Memory,
    }
}

impl Default for RuntimeConfig {
    fn default() -> (res: Self)
        ensures
            res == default_runtime_config(),
    {
        RuntimeConfig {
            default_max_turns: 40,
            default_session_ttl: None,
            default_child_ttl: 1_800_000_000_000,
            child_ttl_margin: 30_000_000_000,
            approval_default_ttl: None,
            persistence: PersistenceBackend::Memory,
        }
    }
}

} // verus!
