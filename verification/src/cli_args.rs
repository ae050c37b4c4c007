//! The command line of the `clawdia` program, as values. Parsing the
//! command line itself is done by the host's argument parser.

use vstd::prelude::*;

verus! {

/// How much is logged.
#[derive(Debug, Clone, Copy, PartialEq, Eq, Structural)]
pub enum LogLevel {
    Trace,
    Debug,
    Info,
    Warn,
    Error,
    Off,
}

/// Which authorization backend the program runs with.
#[derive(Debug, Clone, Copy, PartialEq, Eq, Structural)]
pub enum AuthzBackendChoice {
    /// The policy engine (the default; refuses to start without a policy
    /// store).
    Cedarling,
    /// The flat permission list; for development only.
    Yaml,
}

/// What the program is asked to do.
#[derive(Debug)]
pub enum Command {
    /// Interactive chat with the orchestrator.
    Chat,
    /// List the tools of the connected tool servers.
    Tools { json: bool },
    /// List the configured agents and their permissions.
    Agents,
    /// Generate a policy store from the tools and agent roles.
    AdvisorGenerate { output: String, policy_store_id: Option<String>, system_entity_id: String },
}

/// The parsed command line.
#[derive(Debug)]
pub struct Cli {
    pub log_level: LogLevel,
    pub mcp_config: String,
    pub agents_config: String,
    pub api_key: String,
    pub model: String,
    pub policy_store: String,
    pub authz_backend: AuthzBackendChoice,
    pub command: Command,
}

/// Whether the policy engine enforces decisions under `choice`.
pub fn enforces_policies(choice: AuthzBackendChoice) -> (res: bool)
    ensures
        res == (choice == AuthzBackendChoice::Cedarling),
{
    match choice {
        AuthzBackendChoice::Cedarling => true,
        AuthzBackendChoice::Yaml => false,
    }
}

} // verus!
