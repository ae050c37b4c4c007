//! Agent configuration, the shared audit log, and the helpers the agent
//! builders use: which tools an agent may see, and the one-line previews of
//! sub-agent replies.

use vstd::prelude::*;
use vstd::string::StrSliceExecFns;
use crate::authz::{AuditEntry, Principal};
use crate::authz_hook::{AuthzBackend, AuthzHook};
use crate::runtime::Runtime;
use crate::sessions::SessionId;
use crate::text::{preview, preview_spec};

verus! {

/// Which authorization backend an agent is checked with.
#[derive(Debug, Clone, Copy, PartialEq, Eq, Structural)]
pub enum AuthzMode {
    /// The policy engine (the default).
    Cedarling,
    /// The flat permission list of the configuration file.
    Yaml,
}

impl Default for AuthzMode {
    fn default() -> (res: Self)
        ensures
            res == AuthzMode::Cedarling,
    {
        AuthzMode::Cedarling
    }
}

/// One agent's configuration.
#[derive(Debug)]
pub struct AgentConfig {
    pub name: String,
    pub description: String,
    pub preamble: String,
    pub authz_mode: AuthzMode,
    pub permitted_actions: Vec<String>,
    pub max_turns: Option<u32>,
    /// Session lifetime in nanoseconds.
    pub session_ttl: Option<u64>,
}

/// The agents file: the orchestrator and the sub-agents by name.
#[derive(Debug)]
pub struct Config {
    pub orchestrator: AgentConfig,
    pub agents: Vec<(String, AgentConfig)>,
}

/// Turn limit of an agent that configures none.
pub const DEFAULT_MAX_TURNS: usize = 40;

/// A tool offered by a tool server, as the agent builder sees it.
#[derive(Debug)]
pub struct McpToolInfo {
    pub name: String,
    pub description: Option<String>,
}

impl Clone for McpToolInfo {
    fn clone(&self) -> (res: Self)
        ensures
            res == *self,
    {
        let description = match &self.description {
            Some(d) => Some(d.clone()),
            None => None,
        };
        McpToolInfo { name: self.name.clone(), description }
    }
}

/// The tools of `tools` whose names are permitted, in their order.
pub open spec fn permitted_tools(tools: Seq<McpToolInfo>, permitted: Seq<String>) -> Seq<McpToolInfo>
    decreases tools.len(),
{
    if tools.len() == 0 {
        Seq::empty()
    } else if exists|j: int| 0 <= j < permitted.len() && #[trigger] permitted[j]@ == tools.last().name@ {
        permitted_tools(tools.drop_last(), permitted).push(tools.last())
    } else {
        permitted_tools(tools.drop_last(), permitted)
    }
}

fn is_permitted(name: &String, permitted: &[String]) -> (res: bool)
    ensures
        res == exists|j: int| 0 <= j < permitted@.len() && #[trigger] permitted@[j]@ == name@,
{
    let mut j: usize = 0;
    while j < permitted.len()
        invariant
            j <= permitted@.len(),
            forall|k: int| 0 <= k < j ==> permitted@[k]@ != name@,
        decreases permitted@.len() - j,
    {
        if permitted[j] == *name {
            return true;
        }
        j = j + 1;
    }
    false
}

/// Keeps only the tools named in the permitted actions.
pub fn filter_tools(tools: Vec<McpToolInfo>, permitted: &[String]) -> (res: Vec<McpToolInfo>)
    ensures
        res@ == permitted_tools(tools@, permitted@),
{
    let ghost ts = tools@;
    let mut out: Vec<McpToolInfo> = Vec::new();
    let mut i: usize = 0;
    while i < tools.len()
        invariant
            ts == tools@,
            i <= ts.len(),
            out@ == permitted_tools(ts.take(i as int), permitted@),
        decreases ts.len() - i,
    {
        proof {
            let t = ts.take(i as int + 1);
            assert(t.drop_last() =~= ts.take(i as int));
            assert(t.last() == ts[i as int]);
        }
        if is_permitted(&tools[i].name, permitted) {
            out.push(tools[i].clone());
        }
        i = i + 1;
    }
    proof {
        assert(ts.take(ts.len() as int) =~= ts);
    }
    out
}

/// Which agent the runtime builds.
#[derive(Debug, Clone, Copy, PartialEq, Eq, Structural)]
pub enum AgentRole {
    /// The orchestrator, which may also notify the human.
    Orchestrator,
    /// A child agent.
    Child,
}

/// A runtime tool attached to an agent: its name and, for the tools that
/// act for their caller, the session they act for.
#[derive(Debug)]
pub struct RuntimeTool {
    pub name: String,
    pub caller_session: Option<SessionId>,
}

/// A runtime tool as plain text: its name and the session it acts for.
pub open spec fn runtime_tool_view(t: RuntimeTool) -> (Seq<char>, Option<Seq<char>>) {
    (
        t.name@,
        match t.caller_session {
            Some(s) => Some(s@),
            None => None,
        },
    )
}

/// The runtime tools attached to an agent of `role` running in session
/// `sid`: the approval tools for every agent, and `notify_human` for the
/// orchestrator only. Requesting, executing, listing one's own tickets and
/// notifying act for session `sid`; status and describe act for no session.
pub open spec fn runtime_tools_spec(role: AgentRole, sid: Seq<char>) -> Seq<(Seq<char>, Option<Seq<char>>)> {
    let approval = seq![
        ("approval_request"@, Some(sid)),
        ("approval_status"@, None),
        ("approval_describe"@, None),
        ("approval_execute"@, Some(sid)),
        ("approval_list_mine"@, Some(sid)),
    ];
    match role {
        AgentRole::Orchestrator => approval.push(("notify_human"@, Some(sid))),
        AgentRole::Child => approval,
    }
}

fn tool_for(name: &str, sid: Option<&SessionId>) -> (res: RuntimeTool)
    ensures
        res.name@ == name@,
        match sid {
            Some(s) => res.caller_session == Some(*s),
            None => res.caller_session is None,
        },
{
    let caller_session = match sid {
        Some(s) => Some(s.clone()),
        None => None,
    };
    RuntimeTool { name: name.to_owned(), caller_session }
}

/// The runtime tools attached to an agent of `role` running in session `sid`.
pub fn runtime_tools(role: AgentRole, sid: &SessionId) -> (res: Vec<RuntimeTool>)
    ensures
        Seq::new(res@.len(), |i: int| runtime_tool_view(res@[i])) == runtime_tools_spec(role, sid@),
{
    let mut tools: Vec<RuntimeTool> = Vec::new();
    tools.push(tool_for("approval_request", Some(sid)));
    tools.push(tool_for("approval_status", None));
    tools.push(tool_for("approval_describe", None));
    tools.push(tool_for("approval_execute", Some(sid)));
    tools.push(tool_for("approval_list_mine", Some(sid)));
    if role == AgentRole::Orchestrator {
        tools.push(tool_for("notify_human", Some(sid)));
    }
    proof {
        assert(Seq::new(tools@.len(), |i: int| runtime_tool_view(tools@[i])) =~= runtime_tools_spec(role, sid@));
    }
    tools
}

/// An agent as the builders assemble it: the authorization hook its calls
/// are checked with (principal, permitted actions, backend), its preamble
/// and turn limit, the tools each tool server offers it, the session it
/// runs in (none for the unified builder) and the runtime tools attached.
#[derive(Debug)]
pub struct AgentPlan {
    pub hook: AuthzHook,
    pub preamble: String,
    pub max_turns: usize,
    pub server_tools: Vec<Vec<McpToolInfo>>,
    pub session_id: Option<SessionId>,
    pub runtime_tools: Vec<RuntimeTool>,
}

fn copy_tools(tools: &Vec<McpToolInfo>) -> (res: Vec<McpToolInfo>)
    ensures
        res@ == tools@,
{
    let mut out: Vec<McpToolInfo> = Vec::new();
    let mut i: usize = 0;
    while i < tools.len()
        invariant
            i <= tools@.len(),
            out@ == tools@.take(i as int),
        decreases tools@.len() - i,
    {
        out.push(tools[i].clone());
        i = i + 1;
        proof {
            assert(out@ =~= tools@.take(i as int));
        }
    }
    proof {
        assert(tools@.take(tools@.len() as int) =~= tools@);
    }
    out
}

fn copy_names(names: &Vec<String>) -> (res: Vec<String>)
    ensures
        res@.len() == names@.len(),
        forall|i: int| 0 <= i < names@.len() ==> #[trigger] res@[i]@ == names@[i]@,
{
    let mut out: Vec<String> = Vec::new();
    let mut i: usize = 0;
    while i < names.len()
        invariant
            i <= names@.len(),
            out@.len() == i,
            forall|j: int| 0 <= j < i ==> #[trigger] out@[j]@ == names@[j]@,
        decreases names@.len() - i,
    {
        out.push(names[i].clone());
        i = i + 1;
    }
    out
}

/// Each server's tools, kept to those in `permitted`.
fn filter_each(servers: &[Vec<McpToolInfo>], permitted: &[String]) -> (res: Vec<Vec<McpToolInfo>>)
    ensures
        res@.len() == servers@.len(),
        forall|i: int| 0 <= i < servers@.len() ==> #[trigger] res@[i]@ == permitted_tools(servers@[i]@, permitted@),
{
    let mut out: Vec<Vec<McpToolInfo>> = Vec::new();
    let mut i: usize = 0;
    while i < servers.len()
        invariant
            i <= servers@.len(),
            out@.len() == i,
            forall|j: int| 0 <= j < i ==> #[trigger] out@[j]@ == permitted_tools(servers@[j]@, permitted@),
        decreases servers@.len() - i,
    {
        out.push(filter_tools(copy_tools(&servers[i]), permitted));
        i = i + 1;
    }
    out
}

/// The hook of an agent configured by `config`: it acts as the agent's
/// name, with the configured permitted actions, checked by `backend`.
fn hook_for(config: &AgentConfig, backend: AuthzBackend) -> (res: AuthzHook)
    ensures
        hook_matches(res, *config, backend),
{
    let principal = Principal { id: config.name.clone(), principal_type: config.name.clone(), delegation_record_id: None };
    AuthzHook::new(principal, copy_names(&config.permitted_actions), backend)
}

/// `hook` is the one the builders give an agent configured by `config`
/// under `backend`.
pub open spec fn hook_matches(hook: AuthzHook, config: AgentConfig, backend: AuthzBackend) -> bool {
    &&& hook.principal.id@ == config.name@
    &&& hook.principal.principal_type@ == config.name@
    &&& hook.principal.delegation_record_id is None
    &&& hook.permitted_actions@.len() == config.permitted_actions@.len()
    &&& forall|i: int| 0 <= i < config.permitted_actions@.len() ==> #[trigger] hook.permitted_actions@[i]@
        == config.permitted_actions@[i]@
    &&& hook.sub_agent_tools@.len() == 0
    &&& hook.backend == backend
}

/// The agent the unified builder makes from `config`, checked by
/// `backend`: the preamble gets `permission_preamble` on a line of its own
/// when there is one; each server offers the permitted tools, and no server
/// is attached when there is none or the first offers nothing and nothing
/// is permitted. The turn limit is [`DEFAULT_MAX_TURNS`]; no session and no
/// runtime tool.
pub fn plan_agent(
    config: &AgentConfig,
    servers: &[Vec<McpToolInfo>],
    backend: AuthzBackend,
    permission_preamble: &str,
) -> (res: AgentPlan)
    ensures
        hook_matches(res.hook, *config, backend),
        res.preamble@ == if permission_preamble@.len() == 0 {
            config.preamble@
        } else {
            config.preamble@ + "\n"@ + permission_preamble@
        },
        res.max_turns == DEFAULT_MAX_TURNS,
        res.session_id is None,
        res.runtime_tools@.len() == 0,
        (servers@.len() == 0 || (permitted_tools(servers@[0]@, config.permitted_actions@).len() == 0
            && config.permitted_actions@.len() == 0)) ==> res.server_tools@.len() == 0,
        !(servers@.len() == 0 || (permitted_tools(servers@[0]@, config.permitted_actions@).len() == 0
            && config.permitted_actions@.len() == 0)) ==> {
            &&& res.server_tools@.len() == servers@.len()
            &&& forall|i: int| 0 <= i < servers@.len() ==> #[trigger] res.server_tools@[i]@ == permitted_tools(
                servers@[i]@,
                config.permitted_actions@,
            )
        },
{
    let mut preamble = config.preamble.clone();
    if permission_preamble.unicode_len() > 0 {
        preamble.append("\n");
        preamble.append(permission_preamble);
    }
    let filtered = filter_each(servers, config.permitted_actions.as_slice());
    let server_tools = if servers.len() == 0 || (filtered[0].len() == 0 && config.permitted_actions.len() == 0) {
        Vec::new()
    } else {
        filtered
    };
    AgentPlan {
        hook: hook_for(config, backend),
        preamble,
        max_turns: DEFAULT_MAX_TURNS,
        server_tools,
        session_id: None,
        runtime_tools: Vec::new(),
    }
}

/// The agent `runtime` builds for `role` in session `sid` from `config`:
/// its hook is checked by the runtime's backend (and its decisions go to the
/// runtime's one audit log, see [`Runtime::check_tool_call`]); the configured
/// preamble, [`DEFAULT_MAX_TURNS`] turns, each server's permitted tools, the
/// session `sid`, and the runtime tools of its role, those that act for a
/// caller acting for `sid`. Refused when no tool server is configured.
pub fn plan_runtime_agent(
    runtime: &Runtime,
    sid: &SessionId,
    config: &AgentConfig,
    servers: &[Vec<McpToolInfo>],
    role: AgentRole,
) -> (res: Result<AgentPlan, String>)
    ensures
        servers@.len() == 0 <==> res is Err,
        res matches Err(e) ==> e@ == "At least one MCP server must be configured"@,
        res matches Ok(p) ==> {
            &&& hook_matches(p.hook, *config, runtime.authz_backend)
            &&& p.preamble@ == config.preamble@
            &&& p.max_turns == DEFAULT_MAX_TURNS
            &&& p.server_tools@.len() == servers@.len()
            &&& forall|i: int| 0 <= i < servers@.len() ==> #[trigger] p.server_tools@[i]@ == permitted_tools(
                servers@[i]@,
                config.permitted_actions@,
            )
            &&& p.session_id == Some(*sid)
            &&& Seq::new(p.runtime_tools@.len(), |i: int| runtime_tool_view(p.runtime_tools@[i]))
                == runtime_tools_spec(role, sid@)
        },
{
    if servers.len() == 0 {
        return Err("At least one MCP server must be configured".to_owned());
    }
    Ok(AgentPlan {
        hook: hook_for(config, runtime.authz_backend),
        preamble: config.preamble.clone(),
        max_turns: DEFAULT_MAX_TURNS,
        server_tools: filter_each(servers, config.permitted_actions.as_slice()),
        session_id: Some(sid.clone()),
        runtime_tools: runtime_tools(role, sid),
    })
}

/// The audit trail of every authorization decision, oldest first.
#[derive(Debug, Default)]
pub struct AuditLog {
    entries: Vec<AuditEntry>,
}

impl AuditLog {
    /// The recorded entries.
    pub closed spec fn log(&self) -> Seq<AuditEntry> {
        self.entries@
    }

    pub fn new() -> (res: Self)
        ensures
            res.log() == Seq::<AuditEntry>::empty(),
    {
        AuditLog { entries: Vec::new() }
    }

    pub fn append(&mut self, entry: AuditEntry)
        ensures
            final(self).log() == old(self).log().push(entry),
    {
        self.entries.push(entry);
    }

    /// Copies of the recorded entries.
    pub fn entries(&self) -> (res: Vec<AuditEntry>)
        ensures
            res@ == self.log(),
    {
        let mut out: Vec<AuditEntry> = Vec::new();
        let mut i: usize = 0;
        while i < self.entries.len()
            invariant
                i <= self.entries@.len(),
                out@ == self.entries@.take(i as int),
            decreases self.entries@.len() - i,
        {
            out.push(self.entries[i].clone());
            i = i + 1;
            proof {
                assert(out@ =~= self.entries@.take(i as int));
            }
        }
        proof {
            assert(self.entries@.take(self.entries@.len() as int) =~= self.entries@);
        }
        out
    }
}

/// Arguments of the tool that prompts a sub-agent.
#[derive(Debug)]
pub struct AgentToolArgs {
    pub prompt: String,
}

/// The name a sub-agent is offered under as a tool.
pub fn agent_tool_name(label: &str) -> (res: String)
    ensures
        res@ == "agent_"@ + label@,
{
    let mut out = String::new();
    out.append("agent_");
    out.append(label);
    out
}

/// A one-line preview of a sub-agent's reply: the first `max_chars`
/// characters, line feeds as spaces, an ellipsis when cut.
pub fn truncate(s: &str, max_chars: usize) -> (res: String)
    ensures
        res@ == preview_spec(s@, max_chars as nat),
{
    preview(s, max_chars)
}

} // verus!
