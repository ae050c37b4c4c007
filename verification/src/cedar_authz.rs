//! What the policy engine is asked about a tool call, and what its answer
//! means.
//!
//! The action is the tool name; the resource is always the one `System`
//! entity of the policy store; the context carries what the policies read
//! from the arguments. Loading the store and running the engine are done by
//! the host; the request it sends and the decision it reports are built
//! here.

use vstd::prelude::*;
use crate::authz::{AuthorizationDecision, AuthorizationResult};
use crate::authz_hook::{domain_of, get_member, member};
pub use crate::authz_hook::extract_domain_from_value;
use crate::json::{JsonValue, JsonView};
use crate::text::{starts_with, str_eq};

verus! {

/// `doc_*` tools that manage campaigns as a whole rather than one campaign:
/// listing, status, creation, assembly, and every `doc_publish_*` tool.
pub open spec fn is_manage_tool(tool: Seq<char>) -> bool {
    ||| tool == "doc_list"@
    ||| tool == "doc_status"@
    ||| tool == "doc_create"@
    ||| tool == "doc_assemble"@
    ||| has_prefix(tool, "doc_publish_"@)
}

/// Whether a `doc_*` tool's context carries the campaign id.
pub fn needs_campaign_id(tool_name: &str) -> (res: bool)
    ensures
        res == !is_manage_tool(tool_name@),
{
    !(str_eq(tool_name, "doc_list") || str_eq(tool_name, "doc_status") || str_eq(tool_name, "doc_create")
        || str_eq(tool_name, "doc_assemble") || starts_with(tool_name, "doc_publish_"))
}

/// `s` begins with `p`.
pub open spec fn has_prefix(s: Seq<char>, p: Seq<char>) -> bool {
    s.len() >= p.len() && s.take(p.len() as int) == p
}

/// The context of a call of `tool` with arguments `args`: the requested
/// domain for fetching tools, the campaign id for per-campaign `doc_*`
/// tools, nothing otherwise.
pub open spec fn context_of(tool: Seq<char>, args: JsonView) -> JsonView {
    if tool == "fetch_content"@ || has_prefix(tool, "chrome_"@) {
        match domain_of(args) {
            Some(d) => JsonView::Object(seq![("requested_domain"@, JsonView::Str(d))]),
            None => JsonView::Object(Seq::empty()),
        }
    } else if has_prefix(tool, "doc_"@) && !is_manage_tool(tool) {
        match member(args, "campaign_id"@) {
            Some(JsonView::Str(id)) => JsonView::Object(seq![("campaign_id"@, JsonView::Str(id))]),
            _ => JsonView::Object(Seq::empty()),
        }
    } else {
        JsonView::Object(Seq::empty())
    }
}

/// The policy context of a call of `tool_name` with `args`.
pub fn build_context(tool_name: &str, args: &JsonValue) -> (res: JsonValue)
    ensures
        res@ == context_of(tool_name@, args@),
{
    let mut ctx: Vec<(String, JsonValue)> = Vec::new();
    if str_eq(tool_name, "fetch_content") || starts_with(tool_name, "chrome_") {
        match extract_domain_from_value(args) {
            Some(domain) => {
                let k = "requested_domain".to_owned();
                let ghost dv = domain@;
                let val = JsonValue::Str(domain);
                assert(val@ == JsonView::Str(dv));
                ctx.push((k, val));
                let res = JsonValue::Object(ctx);
                proof {
                    let es = res@->Object_0;
                    assert(es.len() == 1);
                    assert(es =~= seq![("requested_domain"@, JsonView::Str(dv))]);
                }
                return res;
            },
            None => {},
        }
    } else if starts_with(tool_name, "doc_") && needs_campaign_id(tool_name) {
        match get_member(args, "campaign_id") {
            Some(JsonValue::Str(id)) => {
                let k = "campaign_id".to_owned();
                let ghost iv = id@;
                ctx.push((k, JsonValue::Str(id.clone())));
                let res = JsonValue::Object(ctx);
                proof {
                    assert(res@->Object_0 =~= seq![("campaign_id"@, JsonView::Str(iv))]);
                }
                return res;
            },
            _ => {},
        }
    }
    let res = JsonValue::Object(ctx);
    proof {
        assert(res@->Object_0 =~= Seq::<(Seq<char>, JsonView)>::empty());
    }
    res
}

/// The engine's name of the action for tool `tool_name`.
pub fn cedar_action(tool_name: &str) -> (res: String)
    ensures
        res@ == "AgentPolicy::Action::\""@ + tool_name@ + "\""@,
{
    let mut out = String::new();
    out.append("AgentPolicy::Action::\"");
    out.append(tool_name);
    out.append("\"");
    out
}

/// What the engine's answer means: allowed, denied by policy, or denied
/// because the engine failed (with its error text).
pub fn policy_result(agent_name: &str, tool_name: &str, answer: Result<bool, String>) -> (res: AuthorizationResult)
    ensures
        match answer {
            Ok(true) => res.decision == AuthorizationDecision::Allow && res.reason is None,
            Ok(false) => res.decision == AuthorizationDecision::Deny && (res.reason matches Some(r) && r@
                == "Cedar policy denied "@ + agent_name@ + " -> "@ + tool_name@),
            Err(e) => res.decision == AuthorizationDecision::Deny && (res.reason matches Some(r) && r@
                == "Cedarling authorization error: "@ + e@),
        },
{
    match answer {
        Ok(true) => AuthorizationResult { decision: AuthorizationDecision::Allow, reason: None },
        Ok(false) => {
            let mut r = String::new();
            r.append("Cedar policy denied ");
            r.append(agent_name);
            r.append(" -> ");
            r.append(tool_name);
            AuthorizationResult { decision: AuthorizationDecision::Deny, reason: Some(r) }
        },
        Err(e) => {
            let mut r = String::new();
            r.append("Cedarling authorization error: ");
            r.append(e.as_str());
            AuthorizationResult { decision: AuthorizationDecision::Deny, reason: Some(r) }
        },
    }
}

/// The `uid.type` and `uid.id` strings of an entity, when present.
pub open spec fn entity_uid(e: JsonView) -> (Option<Seq<char>>, Option<Seq<char>>) {
    match member(e, "uid"@) {
        Some(uid) => (
            match member(uid, "type"@) {
                Some(JsonView::Str(t)) => Some(t),
                _ => None,
            },
            match member(uid, "id"@) {
                Some(JsonView::Str(i)) => Some(i),
                _ => None,
            },
        ),
        None => (None, None),
    }
}

/// The entity is the `System` entity and names its id.
pub open spec fn is_system_entity(e: JsonView) -> bool {
    entity_uid(e).0 == Some("AgentPolicy::System"@) && entity_uid(e).1 is Some
}

/// The id of `e` when it is the `System` entity.
fn system_entity_id(e: &JsonValue) -> (res: Option<String>)
    ensures
        match res {
            Some(id) => is_system_entity(e@) && entity_uid(e@).1 == Some(id@),
            None => !is_system_entity(e@),
        },
{
    match get_member(e, "uid") {
        Some(uid) => {
            let is_system = match get_member(uid, "type") {
                Some(JsonValue::Str(t)) => str_eq(t.as_str(), "AgentPolicy::System"),
                _ => false,
            };
            if is_system {
                match get_member(uid, "id") {
                    Some(JsonValue::Str(id)) => Some(id.clone()),
                    _ => None,
                }
            } else {
                None
            }
        },
        None => None,
    }
}

/// The id of the first `AgentPolicy::System` entity with an id among the
/// entities of the policy store.
pub fn find_system_entity_id(entities: &Vec<JsonValue>) -> (res: Option<String>)
    ensures
        match res {
            Some(id) => exists|i: int| 0 <= i < entities@.len() && #[trigger] is_system_entity(entities@[i]@)
                && entity_uid(entities@[i]@).1 == Some(id@) && forall|j: int| 0 <= j < i ==> !is_system_entity(
                entities@[j]@,
            ),
            None => forall|i: int| 0 <= i < entities@.len() ==> !is_system_entity(#[trigger] entities@[i]@),
        },
{
    let mut i: usize = 0;
    while i < entities.len()
        invariant
            i <= entities@.len(),
            forall|j: int| 0 <= j < i ==> !is_system_entity(#[trigger] entities@[j]@),
        decreases entities@.len() - i,
    {
        match system_entity_id(&entities[i]) {
            Some(id) => {
                return Some(id);
            },
            None => {},
        }
        i = i + 1;
    }
    None
}

} // verus!
