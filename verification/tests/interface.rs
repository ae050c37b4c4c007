use clawdia::advisor::generator::{after_validation, GenStep, MAX_RETRIES};
use clawdia::advisor::llm::FakeLlmClient;
use clawdia::advisor::prompts::{policy_prompt, retry_prompt, schema_prompt};
use clawdia::advisor::types::{AgentSpec, DiscoveredTool};
use clawdia::json::JsonValue;
use clawdia::notifications::types::Severity;
use clawdia::policy_prompt::{
    add_permission, agent_name_from_stem, build_permissions_prompt, extract_annotation, parse_single_policy_annotations,
    PermissionEntry,
};
use clawdia::sessions::SessionId;
use clawdia::tui::approvals_pane::{ApprovalEvent, ApprovalsState, PaneView, Ticket};
use clawdia::tui::chat_pane::{chat_line, truncate_for_width, ChatMsg, ChatState};
use clawdia::tui::keymap::{dispatch, Action, ApprovalChoice, KeyCode, KeyEvent, MOD_CONTROL, MOD_NONE};
use clawdia::tui::log_pane::{LogLine, LogState, TraceLevel};
use clawdia::tui::runtime_glue::outcome_for_choice;
use clawdia::tui::{App, AppEvent, Pane};
use clawdia::approvals::outcome::ApprovalOutcome;
use clawdia::runtime::split_roles;

const SEC: u64 = 1_000_000_000;

// ── policy annotations ──

#[test]
fn parse_single_policy_extracts_both_annotations() {
    let cedar = r#"
// @id("researcher-search")
@description("Researcher can search the web")
@tool("search")
permit(
  principal == AgentPolicy::Agent::"researcher",
  action == AgentPolicy::Action::"web_fetch",
  resource == AgentPolicy::Tool::"search"
);
"#;
    let entry = parse_single_policy_annotations(cedar).unwrap();
    assert_eq!(entry.tool, "search");
    assert_eq!(entry.description, "Researcher can search the web");
}

#[test]
fn parse_single_policy_returns_none_when_missing_description() {
    let cedar = r#"
@tool("search")
permit(
  principal == AgentPolicy::Agent::"researcher",
  action == AgentPolicy::Action::"web_fetch",
  resource == AgentPolicy::Tool::"search"
);
"#;
    assert!(parse_single_policy_annotations(cedar).is_none());
}

#[test]
fn parse_single_policy_returns_none_when_missing_tool() {
    let cedar = r#"
@description("Can search")
permit(
  principal == AgentPolicy::Agent::"researcher",
  action == AgentPolicy::Action::"web_fetch",
  resource == AgentPolicy::Tool::"search"
);
"#;
    assert!(parse_single_policy_annotations(cedar).is_none());
}

#[test]
fn annotations_are_read_from_trimmed_lines() {
    let cedar = "  @tool(\"a\")  \r\n\t@description(\"d\")\n@tool(\"b\")";
    let entry = parse_single_policy_annotations(cedar).unwrap();
    assert_eq!(entry.tool, "b");
    assert_eq!(entry.description, "d");
    assert_eq!(extract_annotation("@tool(\"x\")", "tool").as_deref(), Some("x"));
    assert_eq!(extract_annotation("@tool(\"x\"", "tool"), None);
    assert_eq!(extract_annotation("@tool(\")", "tool"), None);
}

#[test]
fn build_prompt_formats_correctly() {
    let entries = vec![
        PermissionEntry { tool: "search".to_string(), description: "Search the web".to_string() },
        PermissionEntry { tool: "doc_list".to_string(), description: "List campaigns".to_string() },
    ];
    let prompt = build_permissions_prompt(&entries);
    assert!(prompt.contains("## Your permissions"));
    assert!(prompt.contains("- search — Search the web"));
    assert!(prompt.contains("- doc_list — List campaigns"));
    assert!(prompt.contains("Any tool call outside this list will be denied."));
    assert_eq!(
        prompt,
        "\n## Your permissions\n\nYou are authorized to use the following tools:\n- search — Search the web\n- doc_list — List campaigns\n\nAny tool call outside this list will be denied."
    );
}

#[test]
fn build_prompt_empty_entries_returns_empty() {
    assert!(build_permissions_prompt(&[]).is_empty());
}

#[test]
fn agent_name_is_the_stem_before_the_first_dash() {
    assert_eq!(agent_name_from_stem("researcher-search"), "researcher");
    assert_eq!(agent_name_from_stem("orchestrator"), "orchestrator");
    assert_eq!(agent_name_from_stem("a-b-c"), "a");
}

#[test]
fn permissions_group_by_agent_in_first_seen_order() {
    let mut groups: Vec<(String, Vec<PermissionEntry>)> = Vec::new();
    let e = |t: &str| PermissionEntry { tool: t.into(), description: "d".into() };
    add_permission(&mut groups, "researcher".into(), e("search"));
    add_permission(&mut groups, "copywriter".into(), e("doc_write_content"));
    add_permission(&mut groups, "researcher".into(), e("fetch"));
    assert_eq!(groups.len(), 2);
    assert_eq!(groups[0].0, "researcher");
    assert_eq!(groups[0].1.len(), 2);
    assert_eq!(groups[0].1[1].tool, "fetch");
    assert_eq!(groups[1].1[0].tool, "doc_write_content");
}

// ── chat pane ──

#[test]
fn truncate_uses_chars_not_bytes() {
    let line = "héllo🌊 world";
    let truncated = truncate_for_width(line, 6);
    assert_eq!(truncated.chars().count(), 6);
}

#[test]
fn notification_renders_with_severity_prefix() {
    let mut s = ChatState::default();
    s.history.push(ChatMsg::Notify { severity: Severity::Warn, subject: "stale".into(), body: "data old".into() });
    let rendered = chat_line(&s.history[0], 80);
    assert!(rendered.contains("[WARN]"));
    assert_eq!(rendered, "[WARN] stale: data old");
}

#[test]
fn chat_lines_for_every_message_kind() {
    assert_eq!(chat_line(&ChatMsg::User("hello".into()), 3), "You: hel");
    assert_eq!(chat_line(&ChatMsg::Agent { label: "orch".into(), text: "ok".into() }, 80), "[orch]: ok");
    assert_eq!(chat_line(&ChatMsg::SubAgentSpawn { label: "r".into(), child: "s_1".into() }, 80), "⚡ spawned r/s_1");
    assert_eq!(
        chat_line(&ChatMsg::SubAgentFinish { label: "r".into(), child: "s_1".into(), outcome: "done".into() }, 80),
        "✓ r/s_1 finished: done"
    );
    assert_eq!(
        chat_line(&ChatMsg::Notify { severity: Severity::Blocker, subject: "subject".into(), body: "".into() }, 14),
        "[BLOCKER] subj"
    );
}

// ── keymap ──

fn key(c: char, m: u8) -> KeyEvent {
    KeyEvent::new(KeyCode::Char(c), m)
}

#[test]
fn approve_key_in_approvals_pane_emits_approve_action() {
    let act = dispatch(Pane::Approvals, key('a', MOD_NONE));
    assert!(matches!(act, Action::ApprovalDecide(ApprovalChoice::Approve)));
}

#[test]
fn ctrl_c_emits_quit_in_any_pane() {
    let ev = KeyEvent::new(KeyCode::Char('c'), MOD_CONTROL);
    assert!(matches!(dispatch(Pane::Chat, ev), Action::Quit));
    assert!(matches!(dispatch(Pane::Log, ev), Action::Quit));
}

#[test]
fn jk_navigation_in_approvals() {
    assert!(matches!(dispatch(Pane::Approvals, key('j', MOD_NONE)), Action::SelectNext));
    assert!(matches!(dispatch(Pane::Approvals, key('k', MOD_NONE)), Action::SelectPrev));
}

#[test]
fn tab_focus_next() {
    let ev = KeyEvent::new(KeyCode::Tab, MOD_NONE);
    assert_eq!(dispatch(Pane::Chat, ev), Action::FocusNext);
    assert_eq!(dispatch(Pane::Approvals, ev), Action::FocusNext);
}

#[test]
fn chat_typing_and_submission() {
    assert_eq!(dispatch(Pane::Chat, key('x', MOD_NONE)), Action::InputChar('x'));
    assert_eq!(dispatch(Pane::Chat, key('x', MOD_CONTROL)), Action::NoOp);
    assert_eq!(dispatch(Pane::Chat, KeyEvent::new(KeyCode::Enter, MOD_NONE)), Action::SubmitChat(String::new()));
    assert_eq!(dispatch(Pane::Log, key('a', MOD_NONE)), Action::NoOp);
    assert_eq!(dispatch(Pane::Approvals, key('d', MOD_NONE)), Action::OpenDenyModal);
}

// ── approvals pane ──

fn ticket(id: &str, expires_at: u64) -> Ticket {
    Ticket {
        id: id.into(),
        session_id: SessionId::from_string("s_test1".to_string()).unwrap(),
        action_kind: "tool.doc_publish_live".into(),
        args: JsonValue::Object(vec![("draft_id".into(), JsonValue::Str("d1".into()))]),
        reason: "publish manifest".into(),
        hint: None,
        expires_at,
    }
}

#[test]
fn selection_moves_within_bounds() {
    let mut s = ApprovalsState::default();
    s.set_pending(vec![ticket("a", 60 * SEC), ticket("b", 60 * SEC)]);
    assert_eq!(s.selected_id(), Some("a"));
    s.select_next();
    assert_eq!(s.selected_id(), Some("b"));
    s.select_next();
    assert_eq!(s.selected_id(), Some("b"));
    s.select_prev();
    assert_eq!(s.selected_id(), Some("a"));
}

#[test]
fn ttl_countdown_advances() {
    let mut s = ApprovalsState::default();
    let t0 = 1_000 * SEC;
    s.set_pending(vec![ticket("a", t0 + 30 * SEC)]);
    let remaining = s.remaining_for(s.selected_id().unwrap(), t0);
    assert!(remaining <= 30 * SEC);
    let later = s.remaining_for(s.selected_id().unwrap(), t0 + 10 * SEC);
    assert!(later < remaining);
    assert_eq!(s.remaining_for("zz", t0), 0);
}

#[test]
fn advance_drops_expired_and_clamps_selection() {
    let mut s = ApprovalsState::default();
    s.set_pending(vec![ticket("a", 10), ticket("b", 20), ticket("c", 30)]);
    s.select_next();
    s.select_next();
    s.advance(20);
    assert_eq!(s.pending.len(), 1);
    assert_eq!(s.selected_id(), Some("c"));
    s.advance(30);
    assert!(s.pending.is_empty());
    assert_eq!(s.selected, 0);
    assert_eq!(s.selected_id(), None);
}

#[test]
fn pane_view_shows_modal_notice_or_listing() {
    let mut s = ApprovalsState::default();
    match s.pane_view("{}", 0) {
        PaneView::Empty(t) => assert_eq!(t, "No pending approvals"),
        other => panic!("unexpected {other:?}"),
    }
    s.set_pending(vec![ticket("a", 90 * SEC), ticket("b", 90 * SEC)]);
    s.select_next();
    match s.pane_view("{\"draft_id\": \"d1\"}", 5 * SEC) {
        PaneView::Listing(rows, detail) => {
            assert_eq!(rows, vec!["  a".to_string(), "▸ b".to_string()]);
            assert_eq!(
                detail.unwrap(),
                "Action: tool.doc_publish_live\nSession: s_test1\nReason: publish manifest\nArgs: {\"draft_id\": \"d1\"}\nTTL: 01:25"
            );
        }
        other => panic!("unexpected {other:?}"),
    }
    s.deny_modal_open = true;
    s.deny_reason = "no".into();
    match s.pane_view("{}", 0) {
        PaneView::DenyModal(t) => assert_eq!(t, "Reason for denial:\nno\n\n[Enter] submit  [Esc] cancel"),
        other => panic!("unexpected {other:?}"),
    }
}

#[test]
fn current_view_pretty_prints_the_arguments() {
    let mut s = ApprovalsState::default();
    s.set_pending(vec![ticket("a", 90 * SEC)]);
    match s.current_view(30 * SEC) {
        PaneView::Listing(rows, detail) => {
            assert_eq!(rows, vec!["▸ a".to_string()]);
            assert_eq!(
                detail.unwrap(),
                "Action: tool.doc_publish_live\nSession: s_test1\nReason: publish manifest\nArgs: {\n  \"draft_id\": \"d1\"\n}\nTTL: 01:00"
            );
        }
        other => panic!("unexpected {other:?}"),
    }
}

#[test]
fn selected_detail_is_none_off_the_list() {
    let mut s = ApprovalsState::default();
    s.set_pending(vec![ticket("a", 90 * SEC)]);
    s.selected = 3;
    assert!(s.selected_detail("{}", 0).is_none());
    assert!(s.selected_ticket().is_none());
}

// ── app ──

#[test]
fn focus_next_cycles_three_panes() {
    let mut app = App::new();
    assert_eq!(app.focus, Pane::Chat);
    app.reduce(AppEvent::FocusNext);
    assert_eq!(app.focus, Pane::Approvals);
    app.reduce(AppEvent::FocusNext);
    assert_eq!(app.focus, Pane::Log);
    app.reduce(AppEvent::FocusNext);
    assert_eq!(app.focus, Pane::Chat);
}

#[test]
fn quit_sets_quitting_flag() {
    let mut app = App::new();
    assert!(!app.quitting);
    app.reduce(AppEvent::Quit);
    assert!(app.quitting);
}

#[test]
fn tick_advances_approvals() {
    let mut app = App::new();
    app.reduce(AppEvent::Approval(ApprovalEvent::SetPending(vec![ticket("a", 5)])));
    app.reduce(AppEvent::Tick(5));
    assert!(app.approvals.pending.is_empty());
}

#[test]
fn log_event_pushes_to_log_state() {
    let mut app = App::new();
    let line = LogLine { at: 0, level: TraceLevel::Info, target: "test".to_string(), message: "hello".to_string() };
    app.reduce(AppEvent::Log(line));
    assert_eq!(app.log.lines.len(), 1);
}

#[test]
fn log_keeps_only_the_newest_lines() {
    let mut log = LogState::with_capacity(2);
    for m in ["a", "b", "c"] {
        log.push(LogLine { at: 0, level: TraceLevel::Warn, target: "t".into(), message: m.into() });
    }
    assert_eq!(log.lines.len(), 2);
    assert_eq!(log.lines[0].message, "b");
    assert_eq!(log.scroll, 1);
    log.scroll_down();
    assert_eq!(log.scroll, 1);
    log.scroll_up();
    log.scroll_up();
    assert_eq!(log.scroll, 0);
}

#[test]
fn approval_choices_map_to_outcomes() {
    assert_eq!(outcome_for_choice(ApprovalChoice::Approve), Some(ApprovalOutcome::Approved));
    assert_eq!(
        outcome_for_choice(ApprovalChoice::Deny { reason: "no".into() }),
        Some(ApprovalOutcome::Denied { reason: "no".into() })
    );
    assert_eq!(outcome_for_choice(ApprovalChoice::Skip), None);
}

#[test]
fn roles_split_on_commas_and_trim() {
    assert_eq!(split_roles("campaign_owner"), vec!["campaign_owner"]);
    assert_eq!(split_roles(" a , b,,c "), vec!["a", "b", "", "c"]);
    assert_eq!(split_roles(""), vec![""]);
}

// ── advisor ──

fn tools() -> Vec<DiscoveredTool> {
    vec![DiscoveredTool { server: "s".to_string(), name: "search".to_string(), description: "web search".to_string() }]
}

#[test]
fn schema_prompt_lists_tools() {
    let (sys, user) = schema_prompt(&tools());
    assert!(sys.contains("AgentPolicy"));
    assert!(user.contains("search"));
    assert!(user.contains("web search"));
    assert_eq!(
        user,
        "Generate a Cedar schema for these tools:\n\n- search — web search\n\nReturn only the schema, starting with `namespace AgentPolicy {`.\n"
    );
}

#[test]
fn policy_prompt_includes_agent_and_tools() {
    let agent = AgentSpec {
        name: "researcher".to_string(),
        description: "searches".to_string(),
        permitted_tools: vec!["search".to_string(), "unknown".to_string()],
    };
    let (_sys, user) = policy_prompt(&agent, "clawdia", &tools());
    assert!(user.contains("researcher"));
    assert!(user.contains("clawdia"));
    assert!(user.contains("search"));
    assert!(user.contains("- search — web search\n- unknown — \n"));
}

#[test]
fn retry_prompt_includes_errors_and_prev() {
    let r = retry_prompt("PREV", "ERRS");
    assert!(r.contains("PREV"));
    assert!(r.contains("ERRS"));
}

#[test]
fn fake_returns_responses_in_order() {
    let mut c = FakeLlmClient::new(vec!["one", "two"]);
    assert_eq!(c.complete("s", "u1").unwrap(), "one");
    assert_eq!(c.complete("s", "u2").unwrap(), "two");
    assert!(c.complete("s", "u3").is_err());
}

#[test]
fn fake_records_calls() {
    let mut c = FakeLlmClient::new(vec!["x"]);
    c.complete("sys", "user").unwrap();
    assert_eq!(c.calls(), vec![("sys".to_string(), "user".to_string())]);
}

#[test]
fn retry_decisions_follow_the_attempt_count() {
    assert!(matches!(after_validation(0, "out", None, None), GenStep::Accept));
    match after_validation(0, "bad", Some("oops"), None) {
        GenStep::Retry(u) => assert_eq!(u, retry_prompt("bad", "oops")),
        other => panic!("unexpected {other:?}"),
    }
    match after_validation(MAX_RETRIES - 1, "bad", Some("oops"), None) {
        GenStep::Exhausted(m) => {
            assert!(m.contains("exhausted"));
            assert_eq!(m, "schema validation exhausted after 3 attempts: oops");
        },
        other => panic!("unexpected {other:?}"),
    }
    match after_validation(2, "bad", Some("e"), Some("researcher")) {
        GenStep::Exhausted(m) => assert_eq!(m, "policy validation exhausted for agent `researcher` after 3 attempts"),
        other => panic!("unexpected {other:?}"),
    }
}
