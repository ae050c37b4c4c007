//! Deny-by-default authorization of tool calls.
//!
//! Every tool call an agent makes is checked before it runs: against the
//! agent's flat permission list, or by the policy engine. Sub-agent tools
//! are always allowed (each sub-agent enforces its own permissions). Every
//! decision is recorded in the audit log.

use vstd::prelude::*;
use crate::agents::AuditLog;
use crate::authz::{
    AuditEntry, AuthorizationDecision, AuthorizationRequest, AuthorizationResult, PolicyContext, Principal,
};
use crate::json::{JsonValue, JsonView, parse_json, spec_parse_json};
use crate::text::{preview, preview_spec, to_chars};

verus! {

/// Which backend decides tool calls.
#[derive(Debug, Clone, Copy, PartialEq, Eq, Structural)]
pub enum AuthzBackend {
    /// The flat permission list of the configuration file.
    Yaml,
    /// The policy engine.
    Cedar,
}

/// What to do with a tool call.
#[derive(Debug, PartialEq, Eq)]
pub enum ToolCallAction {
    /// Run the tool.
    Continue,
    /// Do not run it; tell the model why.
    Skip(String),
    /// Ask the policy engine, then hand its answer to
    /// [`AuthzHook::finish_policy_decision`].
    AskPolicyEngine,
}

/// The tool-call authorization hook of one agent. Every decision it makes
/// is recorded in the audit log handed to it with the call, so the hooks of
/// all agents of a runtime write to the runtime's one log.
#[derive(Debug)]
pub struct AuthzHook {
    pub principal: Principal,
    pub permitted_actions: Vec<String>,
    pub sub_agent_tools: Vec<String>,
    pub backend: AuthzBackend,
}

/// `name` occurs in `names`.
pub open spec fn listed(names: Seq<String>, name: Seq<char>) -> bool {
    exists|j: int| 0 <= j < names.len() && #[trigger] names[j]@ == name
}

fn is_listed(names: &Vec<String>, name: &str) -> (res: bool)
    ensures
        res == listed(names@, name@),
{
    let wanted: String = name.to_owned();
    let mut j: usize = 0;
    while j < names.len()
        invariant
            j <= names@.len(),
            wanted@ == name@,
            forall|k: int| 0 <= k < j ==> names@[k]@ != name@,
        decreases names@.len() - j,
    {
        if names[j] == wanted {
            return true;
        }
        j = j + 1;
    }
    false
}

/// The denial reason of the flat-list check.
pub open spec fn not_permitted_reason(tool: Seq<char>, principal: Seq<char>) -> Seq<char> {
    "Tool '"@ + tool + "' not in permitted tools for "@ + principal
}

/// The value of the first member named `key` of an object.
#[verifier::opaque]
pub open spec fn member(v: JsonView, key: Seq<char>) -> Option<JsonView> {
    match v {
        JsonView::Object(es) => {
            if exists|i: int| 0 <= i < es.len() && #[trigger] es[i].0 == key {
                let i = choose|i: int| 0 <= i < es.len() && es[i].0 == key && forall|j: int| 0 <= j < i ==> es[j].0 != key;
                Some(es[i].1)
            } else {
                None
            }
        },
        _ => None,
    }
}

/// `s` up to (not including) its first `/`.
pub open spec fn up_to_slash(s: Seq<char>) -> Seq<char> {
    if exists|i: int| 0 <= i < s.len() && #[trigger] s[i] == '/' {
        let i = choose|i: int| 0 <= i < s.len() && s[i] == '/' && forall|j: int| 0 <= j < i ==> s[j] != '/';
        s.take(i)
    } else {
        s
    }
}

/// The host of an `https://` or `http://` URL.
pub open spec fn url_domain_spec(s: Seq<char>) -> Option<Seq<char>> {
    if s.len() >= 8 && s.take(8) == "https://"@ {
        Some(up_to_slash(s.skip(8)))
    } else if s.len() >= 7 && s.take(7) == "http://"@ {
        Some(up_to_slash(s.skip(7)))
    } else {
        None
    }
}

/// The domain a call asks for: the first of `url`, `domain`, `uri` that
/// the arguments hold; when it is a string, its URL host, else the string.
pub open spec fn domain_of(v: JsonView) -> Option<Seq<char>> {
    let field = match member(v, "url"@) {
        Some(x) => Some(x),
        None => match member(v, "domain"@) {
            Some(x) => Some(x),
            None => member(v, "uri"@),
        },
    };
    match field {
        Some(JsonView::Str(s)) => match url_domain_spec(s) {
            Some(d) => Some(d),
            None => Some(s),
        },
        _ => None,
    }
}

/// The value of the first member named `key`, when `v` is an object.
pub fn get_member<'a>(v: &'a JsonValue, key: &str) -> (res: Option<&'a JsonValue>)
    ensures
        match res {
            Some(x) => member(v@, key@) == Some(x@),
            None => member(v@, key@) is None,
        },
{
    reveal(member);
    match v {
        JsonValue::Object(es) => {
            let wanted: String = key.to_owned();
            let ghost ev = v@->Object_0;
            let mut i: usize = 0;
            while i < es.len()
                invariant
                    *v == JsonValue::Object(*es),
                    ev == v@->Object_0,
                    ev.len() == es@.len(),
                    wanted@ == key@,
                    i <= es@.len(),
                    forall|j: int| 0 <= j < i ==> ev[j].0 != key@,
                decreases es@.len() - i,
            {
                proof {
                    assert(ev[i as int] == (es@[i as int].0@, es@[i as int].1@));
                }
                if es[i].0 == wanted {
                    proof {
                        reveal(member);
                        assert(ev[i as int].0 == key@);
                        let k = choose|k: int| 0 <= k < ev.len() && ev[k].0 == key@ && forall|j: int| 0 <= j < k ==> ev[j].0 != key@;
                        if k < i {
                        } else if k > i {
                            assert(ev[i as int].0 != key@);
                        }
                        assert(k == i);
                    }
                    return Some(&es[i].1);
                }
                i = i + 1;
            }
            proof {
                reveal(member);
            }
            None
        },
        _ => None,
    }
}

/// The prefix of `s` before its first `/`.
fn take_to_slash(s: &[char], from: usize) -> (res: String)
    requires
        from <= s@.len(),
    ensures
        res@ == up_to_slash(s@.skip(from as int)),
{
    let ghost t = s@.skip(from as int);
    let mut out = String::new();
    let mut i: usize = from;
    while i < s.len() && s[i] != '/'
        invariant
            from <= i <= s@.len(),
            t == s@.skip(from as int),
            out@ == t.take(i - from),
            forall|j: int| 0 <= j < i - from ==> t[j] != '/',
        decreases s@.len() - i,
    {
        crate::text::push_char(&mut out, s[i]);
        i = i + 1;
        proof {
            assert(out@ =~= t.take(i - from));
        }
    }
    proof {
        if i < s.len() {
            assert(t[i - from] == '/');
            let k = choose|k: int| 0 <= k < t.len() && t[k] == '/' && forall|j: int| 0 <= j < k ==> t[j] != '/';
            if k < i - from {
            } else if k > i - from {
                assert(t[i - from] != '/');
            }
        } else {
            assert(t.take(i - from) =~= t);
        }
    }
    out
}

fn starts_with_chars(s: &[char], p: &str) -> (res: bool)
    ensures
        res == (s@.len() >= p@.len() && s@.take(p@.len() as int) == p@),
{
    let pc = crate::text::to_chars(p);
    if s.len() < pc.len() {
        return false;
    }
    let mut i: usize = 0;
    while i < pc.len()
        invariant
            pc@ == p@,
            s@.len() >= pc@.len(),
            i <= pc@.len(),
            forall|j: int| 0 <= j < i ==> s@[j] == p@[j],
        decreases pc@.len() - i,
    {
        if s[i] != pc[i] {
            proof {
                assert(s@.take(p@.len() as int)[i as int] != p@[i as int]);
            }
            return false;
        }
        i = i + 1;
    }
    proof {
        assert(s@.take(p@.len() as int) =~= p@);
    }
    true
}

/// The domain read from the string `s` of a `url`, `domain` or `uri`
/// argument is its host when `s` is an `https://` or `http://` URL (the text
/// after the scheme up to the first `/`), else `s` itself.
pub open spec fn domain_read_from(s: Seq<char>, d: Seq<char>) -> bool {
    &&& (s.len() >= 8 && s.take(8) == "https://"@) ==> d == up_to_slash(s.skip(8))
    &&& !(s.len() >= 8 && s.take(8) == "https://"@) && (s.len() >= 7 && s.take(7) == "http://"@) ==> d
        == up_to_slash(s.skip(7))
    &&& !(s.len() >= 8 && s.take(8) == "https://"@) && !(s.len() >= 7 && s.take(7) == "http://"@) ==> d == s
}

/// `k` is the first member of `es` named `key`.
pub open spec fn first_named(es: Seq<(Seq<char>, JsonView)>, key: Seq<char>, k: int) -> bool {
    &&& 0 <= k < es.len()
    &&& es[k].0 == key
    &&& forall|j: int| 0 <= j < k ==> es[j].0 != key
}

/// No member of `es` is named `key`.
pub open spec fn unnamed(es: Seq<(Seq<char>, JsonView)>, key: Seq<char>) -> bool {
    forall|i: int| 0 <= i < es.len() ==> es[i].0 != key
}

proof fn lemma_first_slash(s: Seq<char>, i: int)
    requires
        0 <= i < s.len(),
        s[i] == '/',
    ensures
        exists|k: int| 0 <= k < s.len() && s[k] == '/' && forall|j: int| 0 <= j < k ==> s[j] != '/',
    decreases i,
{
    if exists|j: int| 0 <= j < i && #[trigger] s[j] == '/' {
        let j = choose|j: int| 0 <= j < i && #[trigger] s[j] == '/';
        lemma_first_slash(s, j);
    } else {
        assert(forall|j: int| 0 <= j < i ==> s[j] != '/');
    }
}

/// The host part of a URL runs up to the first `/`: it is a prefix of the
/// text without a `/`, and it is the whole text or followed by a `/`.
pub proof fn lemma_up_to_slash(s: Seq<char>)
    ensures
        up_to_slash(s).len() <= s.len(),
        s.take(up_to_slash(s).len() as int) == up_to_slash(s),
        forall|i: int| 0 <= i < up_to_slash(s).len() ==> #[trigger] up_to_slash(s)[i] != '/',
        up_to_slash(s).len() == s.len() || s[up_to_slash(s).len() as int] == '/',
{
    if exists|i: int| 0 <= i < s.len() && #[trigger] s[i] == '/' {
        let i0 = choose|i: int| 0 <= i < s.len() && #[trigger] s[i] == '/';
        lemma_first_slash(s, i0);
        let i = choose|i: int| 0 <= i < s.len() && s[i] == '/' && forall|j: int| 0 <= j < i ==> s[j] != '/';
        assert(s.take(i) =~= up_to_slash(s));
    } else {
        assert(s.take(s.len() as int) =~= s);
    }
}

proof fn lemma_member_first(es: Seq<(Seq<char>, JsonView)>, key: Seq<char>, k: int)
    requires
        first_named(es, key, k),
    ensures
        member(JsonView::Object(es), key) == Some(es[k].1),
{
    reveal(member);
    assert(es[k].0 == key);
    let i = choose|i: int| 0 <= i < es.len() && es[i].0 == key && forall|j: int| 0 <= j < i ==> es[j].0 != key;
    if i < k {
        assert(es[i].0 != key);
    } else if i > k {
        assert(es[k].0 != key);
    }
}

proof fn lemma_member_absent(es: Seq<(Seq<char>, JsonView)>, key: Seq<char>)
    requires
        unnamed(es, key),
    ensures
        member(JsonView::Object(es), key) is None,
{
    reveal(member);
}

proof fn lemma_domain_read(s: Seq<char>)
    ensures
        domain_read_from(s, match url_domain_spec(s) {
            Some(h) => h,
            None => s,
        }),
{
}

/// Arguments with a `url` member: the domain is read from the first `url`
/// member's string, whatever else the arguments hold.
pub proof fn lemma_domain_from_url(es: Seq<(Seq<char>, JsonView)>, k: int, s: Seq<char>)
    requires
        first_named(es, "url"@, k),
        es[k].1 == JsonView::Str(s),
    ensures
        domain_of(JsonView::Object(es)) matches Some(d) && domain_read_from(s, d),
{
    lemma_member_first(es, "url"@, k);
    lemma_domain_read(s);
}

/// Arguments without `url` but with a `domain` member: the domain is read
/// from the first `domain` member's string.
pub proof fn lemma_domain_from_domain(es: Seq<(Seq<char>, JsonView)>, k: int, s: Seq<char>)
    requires
        unnamed(es, "url"@),
        first_named(es, "domain"@, k),
        es[k].1 == JsonView::Str(s),
    ensures
        domain_of(JsonView::Object(es)) matches Some(d) && domain_read_from(s, d),
{
    lemma_member_absent(es, "url"@);
    lemma_member_first(es, "domain"@, k);
    lemma_domain_read(s);
}

/// Arguments with neither `url` nor `domain` but with a `uri` member: the
/// domain is read from the first `uri` member's string.
pub proof fn lemma_domain_from_uri(es: Seq<(Seq<char>, JsonView)>, k: int, s: Seq<char>)
    requires
        unnamed(es, "url"@),
        unnamed(es, "domain"@),
        first_named(es, "uri"@, k),
        es[k].1 == JsonView::Str(s),
    ensures
        domain_of(JsonView::Object(es)) matches Some(d) && domain_read_from(s, d),
{
    lemma_member_absent(es, "url"@);
    lemma_member_absent(es, "domain"@);
    lemma_member_first(es, "uri"@, k);
    lemma_domain_read(s);
}

/// Arguments that hold none of `url`, `domain` and `uri`, or that are no
/// object at all, ask for no domain.
pub proof fn lemma_no_domain_field(v: JsonView)
    requires
        v matches JsonView::Object(es) ==> unnamed(es, "url"@) && unnamed(es, "domain"@) && unnamed(es, "uri"@),
    ensures
        domain_of(v) is None,
{
    reveal(member);
}

/// When the first of `url`, `domain`, `uri` present does not hold a string,
/// no domain is asked for (a later field is not consulted).
pub proof fn lemma_domain_field_not_string(es: Seq<(Seq<char>, JsonView)>, key: Seq<char>, k: int)
    requires
        key == "url"@ || key == "domain"@ || key == "uri"@,
        key != "url"@ ==> unnamed(es, "url"@),
        key == "uri"@ ==> unnamed(es, "domain"@),
        first_named(es, key, k),
        !(es[k].1 is Str),
    ensures
        domain_of(JsonView::Object(es)) is None,
{
    reveal_strlit("url");
    reveal_strlit("domain");
    reveal_strlit("uri");
    lemma_member_first(es, key, k);
    if key != "url"@ {
        lemma_member_absent(es, "url"@);
    }
    if key == "uri"@ {
        lemma_member_absent(es, "domain"@);
    }
}

/// The host of an `https://` or `http://` URL.
pub fn url_domain(s: &str) -> (res: Option<String>)
    ensures
        match res {
            Some(d) => url_domain_spec(s@) == Some(d@),
            None => url_domain_spec(s@) is None,
        },
{
    let cs = to_chars(s);
    proof {
        reveal_strlit("https://");
        reveal_strlit("http://");
    }
    if starts_with_chars(cs.as_slice(), "https://") {
        Some(take_to_slash(cs.as_slice(), 8))
    } else if starts_with_chars(cs.as_slice(), "http://") {
        Some(take_to_slash(cs.as_slice(), 7))
    } else {
        None
    }
}

/// The domain a call asks for, from its arguments as JSON text: `None` when
/// they do not parse or hold no `url`, `domain` or `uri` string.
pub fn extract_domain(args: &str) -> (res: Option<String>)
    ensures
        match spec_parse_json(args@) {
            Some(v) => match res {
                Some(d) => domain_of(v) == Some(d@),
                None => domain_of(v) is None,
            },
            None => res is None,
        },
{
    let v = match parse_json(args) {
        Some(v) => v,
        None => {
            return None;
        },
    };
    extract_domain_from_value(&v)
}

/// The domain a call asks for, from its parsed arguments.
pub fn extract_domain_from_value(v: &JsonValue) -> (res: Option<String>)
    ensures
        match res {
            Some(d) => domain_of(v@) == Some(d@),
            None => domain_of(v@) is None,
        },
{
    let field = match get_member(v, "url") {
        Some(x) => Some(x),
        None => match get_member(v, "domain") {
            Some(x) => Some(x),
            None => get_member(v, "uri"),
        },
    };
    match field {
        Some(JsonValue::Str(s)) => match url_domain(s.as_str()) {
            Some(d) => Some(d),
            None => Some(s.clone()),
        },
        _ => None,
    }
}

/// A one-line preview of a tool result, at most `max_chars` characters.
pub fn truncate_str(s: &str, max_chars: usize) -> (res: String)
    ensures
        res@ == preview_spec(s@, max_chars as nat),
{
    preview(s, max_chars)
}

/// `after` is `before` with one entry more: the decision of `hook`'s
/// principal on `tool_name`.
pub open spec fn recorded_by(hook: AuthzHook, tool_name: Seq<char>, before: Seq<AuditEntry>, after: Seq<AuditEntry>) -> bool {
    &&& after.len() == before.len() + 1
    &&& after.drop_last() == before
    &&& after.last().principal_id == hook.principal.id
    &&& after.last().principal_type == hook.principal.principal_type
    &&& after.last().action@ == tool_name
}

/// The first half of the check of a call of `tool_name` by `hook`, with the
/// audit log `before` and `after` it: sub-agent tools run and are recorded
/// as allowed; under the policy engine nothing is recorded yet; under the
/// flat list the call runs exactly when permitted, else it is skipped with
/// the reason, and the decision is recorded.
pub open spec fn tool_call_spec(
    hook: AuthzHook,
    tool_name: Seq<char>,
    before: Seq<AuditEntry>,
    after: Seq<AuditEntry>,
    res: ToolCallAction,
) -> bool {
    if listed(hook.sub_agent_tools@, tool_name) {
        &&& res == ToolCallAction::Continue
        &&& recorded_by(hook, tool_name, before, after)
        &&& after.last().decision == AuthorizationDecision::Allow
    } else if hook.backend == AuthzBackend::Cedar {
        res == ToolCallAction::AskPolicyEngine && after == before
    } else {
        &&& if listed(hook.permitted_actions@, tool_name) {
            res == ToolCallAction::Continue && after.last().decision == AuthorizationDecision::Allow
        } else {
            &&& res matches ToolCallAction::Skip(r) && r@ == not_permitted_reason(tool_name, hook.principal.id@)
            &&& after.last().decision == AuthorizationDecision::Deny
        }
        &&& recorded_by(hook, tool_name, before, after)
    }
}

impl AuthzHook {
    pub fn new(principal: Principal, permitted_actions: Vec<String>, backend: AuthzBackend) -> (res: Self)
        ensures
            res.principal == principal,
            res.permitted_actions == permitted_actions,
            res.sub_agent_tools@.len() == 0,
            res.backend == backend,
    {
        AuthzHook { principal, permitted_actions, sub_agent_tools: Vec::new(), backend }
    }

    /// Registers sub-agent tool names that are always allowed.
    pub fn with_sub_agent_tools(self, tools: Vec<String>) -> (res: Self)
        ensures
            res.sub_agent_tools == tools,
            res.principal == self.principal,
            res.permitted_actions == self.permitted_actions,
            res.backend == self.backend,
    {
        AuthzHook { sub_agent_tools: tools, ..self }
    }

    /// Records `result` for a call of `tool_name` in `log`.
    fn record_audit(&self, log: &mut AuditLog, tool_name: &str, args: &str, result: &AuthorizationResult)
        ensures
            final(log).log().len() == old(log).log().len() + 1,
            forall|i: int| 0 <= i < old(log).log().len() ==> final(log).log()[i] == old(log).log()[i],
            ({
                let e = final(log).log().last();
                &&& e.principal_id == self.principal.id
                &&& e.principal_type == self.principal.principal_type
                &&& e.action@ == tool_name@
                &&& e.resource@ == tool_name@
                &&& e.decision == result.decision
                &&& e.denial_reason == result.reason
            }),
    {
        let request = AuthorizationRequest {
            principal: self.principal.clone(),
            action: tool_name.to_owned(),
            resource: tool_name.to_owned(),
            context: PolicyContext {
                delegation_record_id: self.principal.delegation_record_id,
                requested_domain: extract_domain(args),
            },
        };
        let entry = AuditEntry::from_request(&request, result);
        log.append(entry);
    }

    /// The flat-list decision: allowed exactly when the tool is permitted or
    /// a registered sub-agent tool. Records the decision in `log`.
    pub fn authorize(&self, log: &mut AuditLog, tool_name: &str, args: &str) -> (res: AuthorizationResult)
        ensures
            (res.decision == AuthorizationDecision::Allow) <==> (listed(self.permitted_actions@, tool_name@)
                || listed(self.sub_agent_tools@, tool_name@)),
            res.decision == AuthorizationDecision::Allow ==> res.reason is None,
            res.decision == AuthorizationDecision::Deny ==> (res.reason matches Some(r) && r@
                == not_permitted_reason(tool_name@, self.principal.id@)),
            final(log).log().len() == old(log).log().len() + 1,
            forall|i: int| 0 <= i < old(log).log().len() ==> final(log).log()[i] == old(log).log()[i],
            ({
                let e = final(log).log().last();
                &&& e.principal_id == self.principal.id
                &&& e.principal_type == self.principal.principal_type
                &&& e.action@ == tool_name@
                &&& e.resource@ == tool_name@
                &&& e.decision == res.decision
                &&& e.denial_reason == res.reason
            }),
    {
        let is_permitted = is_listed(&self.permitted_actions, tool_name) || is_listed(
            &self.sub_agent_tools,
            tool_name,
        );
        let result = if is_permitted {
            AuthorizationResult { decision: AuthorizationDecision::Allow, reason: None }
        } else {
            let mut r = String::new();
            r.append("Tool '");
            r.append(tool_name);
            r.append("' not in permitted tools for ");
            r.append(self.principal.id.as_str());
            AuthorizationResult { decision: AuthorizationDecision::Deny, reason: Some(r) }
        };
        self.record_audit(log, tool_name, args, &result);
        result
    }

    /// The first half of the check before a tool call: sub-agent tools run
    /// (recorded as allowed); under the flat list, [`Self::authorize`]
    /// decides; under the policy engine, the caller asks it and hands the
    /// answer to [`Self::finish_policy_decision`].
    pub fn on_tool_call(&self, log: &mut AuditLog, tool_name: &str, args: &str) -> (res: ToolCallAction)
        ensures
            tool_call_spec(*self, tool_name@, old(log).log(), final(log).log(), res),
    {
        let ghost before = log.log();
        if is_listed(&self.sub_agent_tools, tool_name) {
            let result = AuthorizationResult { decision: AuthorizationDecision::Allow, reason: None };
            self.record_audit(log, tool_name, args, &result);
            proof {
                assert(log.log().drop_last() =~= before);
            }
            return ToolCallAction::Continue;
        }
        match self.backend {
            AuthzBackend::Yaml => {
                let result = self.authorize(log, tool_name, args);
                proof {
                    assert(log.log().drop_last() =~= before);
                }
                Self::action_for(result)
            },
            AuthzBackend::Cedar => ToolCallAction::AskPolicyEngine,
        }
    }

    /// What a decision means for the call: run it, or skip it with the
    /// denial reason (`denied by policy` when none was given).
    pub fn action_for(result: AuthorizationResult) -> (res: ToolCallAction)
        ensures
            result.decision == AuthorizationDecision::Allow ==> res == ToolCallAction::Continue,
            result.decision == AuthorizationDecision::Deny ==> (res matches ToolCallAction::Skip(r) && (match result.reason {
                Some(x) => r@ == x@,
                None => r@ == "denied by policy"@,
            })),
    {
        match result.decision {
            AuthorizationDecision::Allow => ToolCallAction::Continue,
            AuthorizationDecision::Deny => {
                let reason = match result.reason {
                    Some(r) => r,
                    None => "denied by policy".to_owned(),
                };
                ToolCallAction::Skip(reason)
            },
        }
    }

    /// The second half under the policy engine: records its decision and
    /// says what to do with the call.
    pub fn finish_policy_decision(&self, log: &mut AuditLog, tool_name: &str, args: &str, result: AuthorizationResult) -> (res: ToolCallAction)
        ensures
            result.decision == AuthorizationDecision::Allow ==> res == ToolCallAction::Continue,
            result.decision == AuthorizationDecision::Deny ==> (res matches ToolCallAction::Skip(r) && (match result.reason {
                Some(x) => r@ == x@,
                None => r@ == "denied by policy"@,
            })),
            recorded_by(*self, tool_name@, old(log).log(), final(log).log()),
            final(log).log().last().decision == result.decision,
            final(log).log().last().denial_reason == result.reason,
    {
        let ghost before = log.log();
        self.record_audit(log, tool_name, args, &result);
        proof {
            assert(log.log().drop_last() =~= before);
        }
        Self::action_for(result)
    }

    /// The line printed when a tool returns: the principal, the tool and a
    /// preview of the result.
    pub fn tool_result_line(&self, tool_name: &str, result: &str) -> (res: String)
        ensures
            res@ == "  \u{2502}  \u{1F4CE} ["@ + self.principal.id@ + "] tool "@ + tool_name@ + " returned: "@
                + preview_spec(result@, 100),
    {
        let mut out = String::new();
        out.append("  \u{2502}  \u{1F4CE} [");
        out.append(self.principal.id.as_str());
        out.append("] tool ");
        out.append(tool_name);
        out.append(" returned: ");
        let p = truncate_str(result, 100);
        out.append(p.as_str());
        out
    }
}

} // verus!
