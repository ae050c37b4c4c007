//! What the advisor works from and what it produces.

use vstd::prelude::*;

verus! {

/// An agent role: its name, what it does, and the tools it may use.
#[derive(Debug)]
pub struct AgentSpec {
    pub name: String,
    pub description: String,
    pub permitted_tools: Vec<String>,
}

/// A tool offered by a tool server.
#[derive(Debug)]
pub struct DiscoveredTool {
    pub server: String,
    pub name: String,
    pub description: String,
}

/// The generated policy store: schema, one policy file per agent (by agent
/// name, in name order), entities and metadata.
#[derive(Debug)]
pub struct Artifacts {
    pub schema: String,
    pub policies: Vec<(String, String)>,
    pub agents_json: String,
    pub system_json: String,
    pub metadata_json: String,
}

/// What the advisor is asked to generate a policy store for.
#[derive(Debug)]
pub struct AdvisorInput {
    pub agents: Vec<AgentSpec>,
    pub tools: Vec<DiscoveredTool>,
    pub policy_store_id: String,
    pub system_entity_id: String,
    pub domain_hint: Option<String>,
}

/// What the advisor produced, and where it was written.
#[derive(Debug)]
pub struct AdvisorOutput {
    pub artifacts: Artifacts,
    pub output_dir: String,
}

} // verus!
