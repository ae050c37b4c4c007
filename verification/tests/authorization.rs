use clawdia::agents::{
    filter_tools, plan_agent, plan_runtime_agent, runtime_tools, truncate, AgentConfig, AgentPlan, AgentRole, AuditLog,
    AuthzMode, McpToolInfo, DEFAULT_MAX_TURNS,
};
use clawdia::runtime::build_runtime;
use clawdia::sessions::SessionId;
use clawdia::authz::{AuthorizationDecision, AuthorizationResult, Principal};
use clawdia::authz_hook::{extract_domain, truncate_str, url_domain, AuthzBackend, AuthzHook, ToolCallAction};
use clawdia::cedar_authz::{
    build_context, cedar_action, extract_domain_from_value, find_system_entity_id, needs_campaign_id, policy_result,
};
use clawdia::json::JsonValue;

fn obj(members: Vec<(&str, JsonValue)>) -> JsonValue {
    JsonValue::Object(members.into_iter().map(|(k, v)| (k.to_string(), v)).collect())
}

fn s(text: &str) -> JsonValue {
    JsonValue::Str(text.to_string())
}

fn make_hook(name: &str, permitted: &[&str]) -> AuthzHook {
    let principal = Principal { id: name.into(), principal_type: name.into(), delegation_record_id: None };
    AuthzHook::new(principal, permitted.iter().map(|s| s.to_string()).collect(), AuthzBackend::Yaml)
}

fn make_hook_with_sub_agents(name: &str, permitted: &[&str], sub_agents: &[&str]) -> AuthzHook {
    make_hook(name, permitted).with_sub_agent_tools(sub_agents.iter().map(|s| s.to_string()).collect())
}

// ── deny-by-default ──

#[test]
fn empty_permitted_actions_denies_everything() {
    let mut log = AuditLog::new();
    let hook = make_hook("orchestrator", &[]);
    let result = hook.authorize(&mut log, "read_file", "{}");
    assert_eq!(result.decision, AuthorizationDecision::Deny);
}

#[test]
fn permitted_action_is_allowed() {
    let mut log = AuditLog::new();
    let hook = make_hook("orchestrator", &["read_file"]);
    let result = hook.authorize(&mut log, "read_file", "{}");
    assert_eq!(result.decision, AuthorizationDecision::Allow);
    assert!(result.reason.is_none());
}

#[test]
fn unpermitted_action_is_denied() {
    let mut log = AuditLog::new();
    let hook = make_hook("orchestrator", &["read_file"]);
    let result = hook.authorize(&mut log, "write_file", "{}");
    assert_eq!(result.decision, AuthorizationDecision::Deny);
    let reason = result.reason.unwrap();
    assert!(reason.contains("write_file"));
    assert_eq!(reason, "Tool 'write_file' not in permitted tools for orchestrator");
}

#[test]
fn registered_sub_agent_tool_is_allowed() {
    let mut log = AuditLog::new();
    let hook = make_hook_with_sub_agents("orchestrator", &[], &["agent_researcher", "agent_verifier"]);
    assert_eq!(hook.authorize(&mut log, "agent_researcher", "{}").decision, AuthorizationDecision::Allow);
    assert_eq!(hook.authorize(&mut log, "agent_verifier", "{}").decision, AuthorizationDecision::Allow);
}

#[test]
fn unregistered_sub_agent_tool_is_denied() {
    let mut log = AuditLog::new();
    let hook = make_hook_with_sub_agents("orchestrator", &["doc_create"], &["agent_researcher"]);
    assert_eq!(hook.authorize(&mut log, "agent_copywriter", "{}").decision, AuthorizationDecision::Deny);
}

#[test]
fn sub_agent_tools_do_not_bypass_regular_tool_deny() {
    let mut log = AuditLog::new();
    let hook = make_hook_with_sub_agents("orchestrator", &[], &["agent_researcher"]);
    assert_eq!(hook.authorize(&mut log, "doc_create", "{}").decision, AuthorizationDecision::Deny);
}

#[test]
fn sub_agent_with_no_tools_cannot_call_anything() {
    let mut log = AuditLog::new();
    let hook = make_hook("researcher", &[]);
    assert_eq!(hook.authorize(&mut log, "read_file", "{}").decision, AuthorizationDecision::Deny);
}

#[test]
fn sub_agent_confined_to_permitted_tools() {
    let mut log = AuditLog::new();
    let hook = make_hook("researcher", &["search_sources", "fetch_article"]);
    assert_eq!(hook.authorize(&mut log, "search_sources", "{}").decision, AuthorizationDecision::Allow);
    assert_eq!(hook.authorize(&mut log, "fetch_article", "{}").decision, AuthorizationDecision::Allow);
    assert_eq!(hook.authorize(&mut log, "write_file", "{}").decision, AuthorizationDecision::Deny);
    assert_eq!(hook.authorize(&mut log, "publish_instagram_live", "{}").decision, AuthorizationDecision::Deny);
}

// ── audit log ──

#[test]
fn authorize_appends_to_audit_log() {
    let mut log = AuditLog::new();
    let hook = make_hook("orchestrator", &["read_file"]);
    hook.authorize(&mut log, "read_file", "{}");
    hook.authorize(&mut log, "write_file", "{}");
    let entries = log.entries();
    assert_eq!(entries.len(), 2);
    assert_eq!(entries[0].decision, AuthorizationDecision::Allow);
    assert_eq!(entries[0].action, "read_file");
    assert_eq!(entries[1].decision, AuthorizationDecision::Deny);
    assert_eq!(entries[1].action, "write_file");
}

#[test]
fn audit_log_records_principal_identity() {
    let mut log = AuditLog::new();
    let hook = make_hook("researcher", &[]);
    hook.authorize(&mut log, "some_tool", "{}");
    let entry = &log.entries()[0];
    assert_eq!(entry.principal_id, "researcher");
    assert_eq!(entry.principal_type, "researcher");
}

// ── the two halves of the tool-call check ──

#[test]
fn sub_agent_tool_call_continues_and_is_audited() {
    let mut log = AuditLog::new();
    let hook = make_hook_with_sub_agents("orchestrator", &[], &["agent_researcher"]);
    assert_eq!(hook.on_tool_call(&mut log, "agent_researcher", "{}"), ToolCallAction::Continue);
    assert_eq!(log.entries().len(), 1);
}

#[test]
fn yaml_backend_skips_unpermitted_calls_with_reason() {
    let mut log = AuditLog::new();
    let hook = make_hook("orchestrator", &[]);
    match hook.on_tool_call(&mut log, "write_file", "{}") {
        ToolCallAction::Skip(r) => assert_eq!(r, "Tool 'write_file' not in permitted tools for orchestrator"),
        other => panic!("unexpected {other:?}"),
    }
}

#[test]
fn cedar_backend_defers_then_records() {
    let principal = Principal { id: "researcher".into(), principal_type: "researcher".into(), delegation_record_id: None };
    let mut log = AuditLog::new();
    let hook = AuthzHook::new(principal, vec![], AuthzBackend::Cedar);
    assert_eq!(hook.on_tool_call(&mut log, "search", "{}"), ToolCallAction::AskPolicyEngine);
    assert_eq!(log.entries().len(), 0);
    let denied = policy_result("researcher", "doc_create", Ok(false));
    match hook.finish_policy_decision(&mut log, "doc_create", "{}", denied) {
        ToolCallAction::Skip(r) => assert_eq!(r, "Cedar policy denied researcher -> doc_create"),
        other => panic!("unexpected {other:?}"),
    }
    let none = AuthorizationResult { decision: AuthorizationDecision::Deny, reason: None };
    assert_eq!(hook.finish_policy_decision(&mut log, "x", "{}", none), ToolCallAction::Skip("denied by policy".into()));
    assert_eq!(log.entries().len(), 2);
}

#[test]
fn tool_result_line_previews_the_result() {
    let hook = make_hook("researcher", &[]);
    assert_eq!(hook.tool_result_line("search", "a\nb"), "  │  📎 [researcher] tool search returned: a b");
}

// ── domain extraction ──

#[test]
fn extract_domain_from_url_arg() {
    let domain = extract_domain(r#"{"url": "https://fisheries.noaa.gov/article/123"}"#);
    assert_eq!(domain.as_deref(), Some("fisheries.noaa.gov"));
}

#[test]
fn extract_domain_from_domain_arg() {
    let domain = extract_domain(r#"{"domain": "oceana.org"}"#);
    assert_eq!(domain.as_deref(), Some("oceana.org"));
}

#[test]
fn extract_domain_returns_none_for_empty_args() {
    assert_eq!(extract_domain("{}"), None);
}

#[test]
fn extract_domain_returns_none_for_invalid_json() {
    assert_eq!(extract_domain("not json"), None);
}

#[test]
fn url_domain_needs_a_web_scheme() {
    assert_eq!(url_domain("http://a.org").as_deref(), Some("a.org"));
    assert_eq!(url_domain("https://a.org/x/y").as_deref(), Some("a.org"));
    assert_eq!(url_domain("ftp://a.org"), None);
}

#[test]
fn extract_domain_reads_parsed_arguments() {
    assert_eq!(
        extract_domain(r#"{"n": [1, -2, 1.5, "x", null, true], "url": "https://a.org/x"}"#).as_deref(),
        Some("a.org")
    );
    assert_eq!(extract_domain(r#"{"domain": "b.org"}"#).as_deref(), Some("b.org"));
    assert_eq!(extract_domain(r#"{"url": 5}"#), None);
    assert_eq!(extract_domain("not json"), None);
}

// ── truncation (UTF-8 safe) ──

#[test]
fn truncate_ascii() {
    assert_eq!(truncate_str("hello world", 5), "hello…");
}

#[test]
fn truncate_no_op_when_short() {
    assert_eq!(truncate_str("hi", 10), "hi");
}

#[test]
fn truncate_utf8_does_not_panic() {
    let ukrainian = "Донне тралення знищує екосистеми морського дна";
    let result = truncate_str(ukrainian, 10);
    assert_eq!(result, "Донне трал…");
}

#[test]
fn truncate_replaces_newlines() {
    assert_eq!(truncate_str("line1\nline2\nline3", 100), "line1 line2 line3");
}

#[test]
fn agent_reply_preview_matches_tool_preview() {
    assert_eq!(truncate("a\nbcdef", 3), "a b…");
}

// ── policy engine context ──

#[test]
fn build_context_fetch_content_with_url() {
    let args = obj(vec![("url", s("https://oceana.org/reports/trawling"))]);
    let ctx = build_context("fetch_content", &args);
    assert_eq!(ctx, obj(vec![("requested_domain", s("oceana.org"))]));
}

#[test]
fn build_context_chrome_with_url() {
    let args = obj(vec![("url", s("https://oceana.org/reports/trawling"))]);
    let ctx = build_context("chrome_get_web_content", &args);
    assert_eq!(ctx, obj(vec![("requested_domain", s("oceana.org"))]));
}

#[test]
fn build_context_search_empty() {
    let args = obj(vec![("query", s("bottom trawling"))]);
    assert_eq!(build_context("search", &args), obj(vec![]));
}

#[test]
fn build_context_doc_add_statement_with_id() {
    let args = obj(vec![("campaign_id", s("camp-1"))]);
    let ctx = build_context("doc_add_statement", &args);
    assert_eq!(ctx, obj(vec![("campaign_id", s("camp-1"))]));
}

#[test]
fn build_context_doc_list_empty() {
    let args = obj(vec![("campaign_id", s("camp-1"))]);
    assert_eq!(build_context("doc_list", &args), obj(vec![]));
}

#[test]
fn build_context_doc_create_empty() {
    let args = obj(vec![("campaign_id", s("camp-1"))]);
    assert_eq!(build_context("doc_create", &args), obj(vec![]));
}

#[test]
fn needs_campaign_id_for_write_tools() {
    assert!(needs_campaign_id("doc_add_statement"));
    assert!(needs_campaign_id("doc_set_verdict"));
    assert!(needs_campaign_id("doc_write_content"));
    assert!(needs_campaign_id("doc_get_verified"));
    assert!(needs_campaign_id("doc_get"));
    assert!(needs_campaign_id("doc_list_statements"));
}

#[test]
fn no_campaign_id_for_manage_tools() {
    assert!(!needs_campaign_id("doc_list"));
    assert!(!needs_campaign_id("doc_status"));
    assert!(!needs_campaign_id("doc_create"));
    assert!(!needs_campaign_id("doc_assemble"));
    assert!(!needs_campaign_id("doc_publish_draft"));
    assert!(!needs_campaign_id("doc_publish_live"));
    assert!(!needs_campaign_id("doc_publish_preview"));
}

#[test]
fn extract_domain_from_https_url() {
    let v = obj(vec![("url", s("https://fisheries.noaa.gov/article/123"))]);
    assert_eq!(extract_domain_from_value(&v).as_deref(), Some("fisheries.noaa.gov"));
}

#[test]
fn extract_domain_from_bare_domain() {
    let v = obj(vec![("domain", s("oceana.org"))]);
    assert_eq!(extract_domain_from_value(&v).as_deref(), Some("oceana.org"));
}

#[test]
fn extract_domain_returns_none_when_missing() {
    let v = obj(vec![("query", s("trawling"))]);
    assert_eq!(extract_domain_from_value(&v), None);
}

#[test]
fn url_key_takes_precedence_even_when_not_a_string() {
    let v = obj(vec![("url", JsonValue::PosInt(3)), ("domain", s("oceana.org"))]);
    assert_eq!(extract_domain_from_value(&v), None);
}

#[test]
fn cedar_action_quotes_the_tool() {
    assert_eq!(cedar_action("search"), "AgentPolicy::Action::\"search\"");
}

#[test]
fn policy_result_maps_engine_answers() {
    let ok = policy_result("a", "t", Ok(true));
    assert_eq!(ok.decision, AuthorizationDecision::Allow);
    assert!(ok.reason.is_none());
    let err = policy_result("a", "t", Err("boom".into()));
    assert_eq!(err.decision, AuthorizationDecision::Deny);
    assert_eq!(err.reason.as_deref(), Some("Cedarling authorization error: boom"));
}

#[test]
fn system_entity_found_by_uid_type() {
    let entities = vec![
        obj(vec![("uid", obj(vec![("type", s("AgentPolicy::Agent")), ("id", s("researcher"))]))]),
        obj(vec![("uid", obj(vec![("type", s("AgentPolicy::System")), ("id", s("clawdia"))]))]),
    ];
    assert_eq!(find_system_entity_id(&entities).as_deref(), Some("clawdia"));
    assert_eq!(find_system_entity_id(&entities[..1].to_vec()), None);
}

// ── tool filtering ──

fn make_tool(name: &str) -> McpToolInfo {
    McpToolInfo { name: name.to_string(), description: Some(format!("{name} tool")) }
}

fn tool_names(tools: &[McpToolInfo]) -> Vec<String> {
    tools.iter().map(|t| t.name.clone()).collect()
}

#[test]
fn filter_tools_keeps_only_permitted() {
    let tools = vec![make_tool("read_file"), make_tool("write_file"), make_tool("list_directory")];
    let permitted = vec!["read_file".to_string(), "list_directory".to_string()];
    let filtered = filter_tools(tools, &permitted);
    assert_eq!(tool_names(&filtered), vec!["read_file", "list_directory"]);
}

#[test]
fn filter_tools_empty_permitted_returns_nothing() {
    let tools = vec![make_tool("read_file"), make_tool("write_file")];
    assert!(filter_tools(tools, &[]).is_empty());
}

#[test]
fn filter_tools_no_matching_tools_returns_empty() {
    let tools = vec![make_tool("read_file")];
    let permitted = vec!["write_file".to_string()];
    assert!(filter_tools(tools, &permitted).is_empty());
}

#[test]
fn filter_tools_preserves_tool_metadata() {
    let tools = vec![make_tool("read_file")];
    let permitted = vec!["read_file".to_string()];
    let filtered = filter_tools(tools, &permitted);
    assert_eq!(filtered.len(), 1);
    assert_eq!(filtered[0].description.as_deref(), Some("read_file tool"));
}

fn config(name: &str, permitted: Vec<&str>) -> AgentConfig {
    AgentConfig {
        name: name.into(),
        description: String::new(),
        preamble: String::new(),
        authz_mode: AuthzMode::default(),
        permitted_actions: permitted.into_iter().map(String::from).collect(),
        max_turns: None,
        session_ttl: None,
    }
}

#[test]
fn agent_config_filters_tools_correctly() {
    let config = config("orchestrator", vec!["read_file", "list_directory"]);
    let all_tools =
        vec![make_tool("read_file"), make_tool("write_file"), make_tool("list_directory"), make_tool("edit_file")];
    let filtered = filter_tools(all_tools, &config.permitted_actions);
    assert_eq!(tool_names(&filtered), vec!["read_file", "list_directory"]);
}

#[test]
fn same_filter_works_for_sub_agent() {
    let config = config("researcher", vec!["read_file", "search_files"]);
    let all_tools =
        vec![make_tool("read_file"), make_tool("write_file"), make_tool("search_files"), make_tool("edit_file")];
    let filtered = filter_tools(all_tools, &config.permitted_actions);
    assert_eq!(tool_names(&filtered), vec!["read_file", "search_files"]);
}

#[test]
fn agent_with_empty_permitted_sees_no_tools() {
    let config = config("media_creator", vec![]);
    let all_tools = vec![make_tool("read_file"), make_tool("write_file")];
    assert!(filter_tools(all_tools, &config.permitted_actions).is_empty());
}

#[test]
fn agent_cannot_see_tools_not_in_permitted() {
    let config = config("researcher", vec!["read_file"]);
    let all_tools = vec![make_tool("read_file"), make_tool("write_file"), make_tool("publish_instagram_live")];
    let filtered = filter_tools(all_tools, &config.permitted_actions);
    assert_eq!(filtered.len(), 1);
    assert_eq!(filtered[0].name, "read_file");
}

#[test]
fn authz_mode_default_is_cedarling() {
    assert_eq!(AuthzMode::default(), AuthzMode::Cedarling);
}

// ── agent assembly ──

fn agent_config(name: &str, permitted: &[&str]) -> AgentConfig {
    AgentConfig {
        name: name.into(),
        description: "d".into(),
        preamble: "You are helpful.".into(),
        authz_mode: AuthzMode::Yaml,
        permitted_actions: permitted.iter().map(|p| p.to_string()).collect(),
        max_turns: Some(5),
        session_ttl: None,
    }
}

fn session(raw: &str) -> SessionId {
    SessionId::from_string(raw.to_string()).unwrap()
}

#[test]
fn runtime_agent_needs_a_tool_server() {
    let runtime = build_runtime("k", "local", "admin", AuthzBackend::Yaml);
    let cfg = agent_config("orchestrator", &["read_file"]);
    let err = plan_runtime_agent(&runtime, &session("s_test1"), &cfg, &[], AgentRole::Orchestrator).err().unwrap();
    assert_eq!(err, "At least one MCP server must be configured");
}

fn tool_bindings(plan: &AgentPlan) -> Vec<(String, Option<String>)> {
    plan.runtime_tools
        .iter()
        .map(|t| (t.name.clone(), t.caller_session.as_ref().map(|s| s.as_str().to_string())))
        .collect()
}

#[test]
fn notify_human_is_for_the_orchestrator_only() {
    let runtime = build_runtime("k", "local", "admin", AuthzBackend::Cedar);
    let sid = session("s_test1");
    let cfg = agent_config("researcher", &["read_file"]);
    let servers = vec![vec![make_tool("read_file"), make_tool("write_file")], vec![make_tool("read_file")]];
    let orch = plan_runtime_agent(&runtime, &sid, &cfg, &servers, AgentRole::Orchestrator).unwrap();
    let child = plan_runtime_agent(&runtime, &sid, &cfg, &servers, AgentRole::Child).unwrap();
    let bound = |n: &str| (n.to_string(), Some("s_test1".to_string()));
    let unbound = |n: &str| (n.to_string(), None);
    assert_eq!(
        tool_bindings(&orch),
        vec![
            bound("approval_request"),
            unbound("approval_status"),
            unbound("approval_describe"),
            bound("approval_execute"),
            bound("approval_list_mine"),
            bound("notify_human"),
        ]
    );
    assert_eq!(
        tool_bindings(&child),
        vec![
            bound("approval_request"),
            unbound("approval_status"),
            unbound("approval_describe"),
            bound("approval_execute"),
            bound("approval_list_mine"),
        ]
    );
    assert_eq!(child.session_id.as_ref().unwrap().as_str(), "s_test1");
    assert_eq!(orch.session_id.as_ref().unwrap().as_str(), "s_test1");
    let direct: Vec<String> = runtime_tools(AgentRole::Child, &sid).into_iter().map(|t| t.name).collect();
    assert_eq!(direct.len(), 5);
    assert_eq!(child.max_turns, DEFAULT_MAX_TURNS);
    assert_eq!(child.max_turns, 40);
    assert_eq!(child.hook.principal.id, "researcher");
    assert_eq!(child.hook.principal.principal_type, "researcher");
    assert_eq!(child.hook.permitted_actions, vec!["read_file".to_string()]);
    assert_eq!(child.hook.backend, AuthzBackend::Cedar);
    assert_eq!(child.preamble, "You are helpful.");
    assert_eq!(child.server_tools.len(), 2);
    assert_eq!(tool_names(&child.server_tools[0]), vec!["read_file"]);
    assert_eq!(tool_names(&child.server_tools[1]), vec!["read_file"]);
}

#[test]
fn every_agent_records_into_the_runtime_log() {
    let mut runtime = build_runtime("k", "local", "admin", AuthzBackend::Yaml);
    let servers = vec![vec![make_tool("read_file")]];
    let orch = plan_runtime_agent(&runtime, &session("s_test1"), &agent_config("orchestrator", &["read_file"]), &servers, AgentRole::Orchestrator).unwrap();
    let child = plan_runtime_agent(&runtime, &session("s_test2"), &agent_config("researcher", &[]), &servers, AgentRole::Child).unwrap();
    assert_eq!(runtime.check_tool_call(&orch, "read_file", "{}"), ToolCallAction::Continue);
    match runtime.check_tool_call(&child, "read_file", "{}") {
        ToolCallAction::Skip(r) => assert_eq!(r, "Tool 'read_file' not in permitted tools for researcher"),
        other => panic!("unexpected {other:?}"),
    }
    let denied = AuthorizationResult { decision: AuthorizationDecision::Deny, reason: None };
    assert_eq!(runtime.finish_policy_decision(&child, "write_file", "{}", denied), ToolCallAction::Skip("denied by policy".into()));
    let entries = runtime.audit_log.entries();
    assert_eq!(entries.len(), 3);
    assert_eq!(entries[0].principal_id, "orchestrator");
    assert_eq!(entries[0].decision, AuthorizationDecision::Allow);
    assert_eq!(entries[1].principal_id, "researcher");
    assert_eq!(entries[1].decision, AuthorizationDecision::Deny);
    assert_eq!(entries[2].action, "write_file");
}

#[test]
fn unified_builder_joins_the_permission_preamble() {
    let cfg = agent_config("researcher", &["read_file"]);
    let servers = vec![vec![make_tool("read_file"), make_tool("write_file")]];
    let plan = plan_agent(&cfg, &servers, AuthzBackend::Yaml, "Permissions: read_file");
    assert_eq!(plan.preamble, "You are helpful.\nPermissions: read_file");
    assert_eq!(tool_names(&plan.server_tools[0]), vec!["read_file"]);
    assert!(plan.runtime_tools.is_empty());
    assert!(plan.session_id.is_none());
    assert_eq!(plan.hook.principal.id, "researcher");
    let bare = plan_agent(&agent_config("quiet", &[]), &servers, AuthzBackend::Yaml, "");
    assert_eq!(bare.preamble, "You are helpful.");
    assert!(bare.server_tools.is_empty());
    assert!(plan_agent(&cfg, &[], AuthzBackend::Yaml, "").server_tools.is_empty());
}

#[test]
fn hooks_of_all_agents_share_one_log() {
    let mut log = AuditLog::new();
    let orchestrator = make_hook("orchestrator", &["read_file"]);
    let researcher = make_hook("researcher", &[]);
    orchestrator.authorize(&mut log, "read_file", "{}");
    researcher.authorize(&mut log, "read_file", "{}");
    let entries = log.entries();
    assert_eq!(entries.len(), 2);
    assert_eq!(entries[0].principal_id, "orchestrator");
    assert_eq!(entries[0].decision, AuthorizationDecision::Allow);
    assert_eq!(entries[1].principal_id, "researcher");
    assert_eq!(entries[1].decision, AuthorizationDecision::Deny);
}
