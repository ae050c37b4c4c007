//! Prompt templates for generating Cedar artifacts: one call for the schema,
//! one per agent for its policy file, and the follow-up after a failed
//! validation.

use vstd::prelude::*;
use crate::advisor::types::{AgentSpec, DiscoveredTool};
use crate::text::concat_all;

verus! {

/// The system message of the schema call.
pub const SCHEMA_SYSTEM: &'static str = "You generate Cedar policy schemas in the AgentPolicy namespace. Output ONLY the schema content \u{2014} no markdown fences, no commentary. Each tool becomes one Cedar action whose name is the tool name verbatim. Principal is always `Agent`, resource is always `System`. The Agent entity has a single attribute `agent_type: String`. The context shape can vary per action; use `{ requested_domain?: String }` for tools whose name starts with `fetch_` or `chrome_`, `{ campaign_id?: String }` for tools whose name starts with `doc_` (excluding `doc_list`, `doc_status`, `doc_create`), and `{}` otherwise.";

/// The system message of each policy call.
pub const POLICY_SYSTEM: &'static str = "You generate Cedar policies for one agent in the AgentPolicy namespace. Output ONLY the policy file content \u{2014} no markdown fences, no commentary. Each permitted tool becomes one `permit` policy. Each policy MUST have an `@description(\"...\")` and an `@tool(\"<tool_name>\")` annotation. The principal is `AgentPolicy::Agent::\"<agent_name>\"`, the action is `AgentPolicy::Action::\"<tool_name>\"`, and the resource is `AgentPolicy::System::\"<system_id>\"`. Multiple policies in one file are OK; separate by blank lines.";

/// How a tool is listed: `- name — description`.
pub open spec fn tool_line(name: Seq<char>, description: Seq<char>) -> Seq<char> {
    "- "@ + name + " \u{2014} "@ + description + "\n"@
}

/// The user message of the schema call.
pub open spec fn schema_user(tools: Seq<DiscoveredTool>) -> Seq<char> {
    "Generate a Cedar schema for these tools:\n\n"@ + concat_all(
        Seq::new(tools.len(), |i: int| tool_line(tools[i].name@, tools[i].description@)),
    ) + "\nReturn only the schema, starting with `namespace AgentPolicy {`.\n"@
}

/// The schema call: system and user message.
pub fn schema_prompt(tools: &[DiscoveredTool]) -> (res: (String, String))
    ensures
        res.0@ == SCHEMA_SYSTEM@,
        res.1@ == schema_user(tools@),
{
    let mut user = String::new();
    user.append("Generate a Cedar schema for these tools:\n\n");
    let ghost head = user@;
    let ghost ls = Seq::new(tools@.len(), |i: int| tool_line(tools@[i].name@, tools@[i].description@));
    let mut i: usize = 0;
    while i < tools.len()
        invariant
            i <= tools@.len(),
            ls == Seq::new(tools@.len(), |k: int| tool_line(tools@[k].name@, tools@[k].description@)),
            user@ == head + concat_all(ls.take(i as int)),
        decreases tools@.len() - i,
    {
        user.append("- ");
        user.append(tools[i].name.as_str());
        user.append(" \u{2014} ");
        user.append(tools[i].description.as_str());
        user.append("\n");
        proof {
            let t = ls.take(i as int + 1);
            assert(t.drop_last() =~= ls.take(i as int));
            assert(t.last() == ls[i as int]);
            assert(user@ =~= head + concat_all(t));
        }
        i = i + 1;
    }
    proof {
        assert(ls.take(tools@.len() as int) =~= ls);
    }
    user.append("\nReturn only the schema, starting with `namespace AgentPolicy {`.\n");
    (SCHEMA_SYSTEM.to_owned(), user)
}

/// The description of the first tool named `name` (empty when none is).
pub open spec fn description_of(tools: Seq<DiscoveredTool>, name: Seq<char>) -> Seq<char> {
    if exists|i: int| 0 <= i < tools.len() && #[trigger] tools[i].name@ == name {
        let i = choose|i: int| 0 <= i < tools.len() && tools[i].name@ == name && forall|j: int| 0 <= j < i ==> tools[j].name@ != name;
        tools[i].description@
    } else {
        Seq::empty()
    }
}

fn find_description(tools: &[DiscoveredTool], name: &String) -> (res: String)
    ensures
        res@ == description_of(tools@, name@),
{
    let mut i: usize = 0;
    while i < tools.len()
        invariant
            i <= tools@.len(),
            forall|j: int| 0 <= j < i ==> tools@[j].name@ != name@,
        decreases tools@.len() - i,
    {
        if tools[i].name == *name {
            proof {
                let k = choose|k: int| 0 <= k < tools@.len() && tools@[k].name@ == name@ && forall|j: int| 0 <= j < k ==> tools@[j].name@ != name@;
                if k < i {
                } else if k > i {
                    assert(tools@[i as int].name@ != name@);
                }
            }
            return tools[i].description.clone();
        }
        i = i + 1;
    }
    String::new()
}

/// The user message of the policy call for `agent`.
pub open spec fn policy_user(agent: AgentSpec, system_entity_id: Seq<char>, tools: Seq<DiscoveredTool>) -> Seq<char> {
    "Agent name: "@ + agent.name@ + "\nAgent description: "@ + agent.description@ + "\nSystem entity id: "@
        + system_entity_id + "\n\nPermitted tools:\n"@ + concat_all(
        Seq::new(
            agent.permitted_tools@.len(),
            |i: int| tool_line(agent.permitted_tools@[i]@, description_of(tools, agent.permitted_tools@[i]@)),
        ),
    ) + "\nReturn only the .cedar file content.\n"@
}

/// The policy call for one agent: system and user message.
pub fn policy_prompt(agent: &AgentSpec, system_entity_id: &str, tools: &[DiscoveredTool]) -> (res: (String, String))
    ensures
        res.0@ == POLICY_SYSTEM@,
        res.1@ == policy_user(*agent, system_entity_id@, tools@),
{
    let mut user = String::new();
    user.append("Agent name: ");
    user.append(agent.name.as_str());
    user.append("\nAgent description: ");
    user.append(agent.description.as_str());
    user.append("\nSystem entity id: ");
    user.append(system_entity_id);
    user.append("\n\nPermitted tools:\n");
    let ghost head = user@;
    let ghost ps = agent.permitted_tools@;
    let ghost ls = Seq::new(ps.len(), |i: int| tool_line(ps[i]@, description_of(tools@, ps[i]@)));
    let mut i: usize = 0;
    while i < agent.permitted_tools.len()
        invariant
            i <= ps.len(),
            ps == agent.permitted_tools@,
            ls == Seq::new(ps.len(), |k: int| tool_line(ps[k]@, description_of(tools@, ps[k]@))),
            user@ == head + concat_all(ls.take(i as int)),
        decreases ps.len() - i,
    {
        let desc = find_description(tools, &agent.permitted_tools[i]);
        user.append("- ");
        user.append(agent.permitted_tools[i].as_str());
        user.append(" \u{2014} ");
        user.append(desc.as_str());
        user.append("\n");
        proof {
            let t = ls.take(i as int + 1);
            assert(t.drop_last() =~= ls.take(i as int));
            assert(t.last() == ls[i as int]);
            assert(user@ =~= head + concat_all(t));
        }
        i = i + 1;
    }
    proof {
        assert(ls.take(ps.len() as int) =~= ls);
    }
    user.append("\nReturn only the .cedar file content.\n");
    (POLICY_SYSTEM.to_owned(), user)
}

/// The text of the follow-up after a failed validation.
pub open spec fn retry_text(prev_output: Seq<char>, errors: Seq<char>) -> Seq<char> {
    "Your previous output failed validation. Output again, fixing the errors below.\n\n=== Previous output ===\n"@
        + prev_output + "\n\n=== Validation errors ===\n"@ + errors + "\n\nOutput only the corrected content."@
}

/// The follow-up after a failed validation: the previous output and the
/// errors, with the request to correct it.
pub fn retry_prompt(prev_output: &str, errors: &str) -> (res: String)
    ensures
        res@ == retry_text(prev_output@, errors@),
{
    let mut out = String::new();
    out.append(
        "Your previous output failed validation. Output again, fixing the errors below.\n\n=== Previous output ===\n",
    );
    out.append(prev_output);
    out.append("\n\n=== Validation errors ===\n");
    out.append(errors);
    out.append("\n\nOutput only the corrected content.");
    out
}

} // verus!
