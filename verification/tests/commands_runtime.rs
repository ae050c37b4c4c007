use clawdia::agents::{AgentConfig, AuthzMode, Config, McpToolInfo};
use clawdia::authz_hook::AuthzBackend;
use clawdia::commands::{agents_report, hex_store_id, tools_report};
use clawdia::json::JsonValue;
use clawdia::policy_prompt::{permissions_from_files, PolicyFile};
use clawdia::runtime::build_runtime;
use clawdia::sessions::SessionId;
use clawdia::tui::approvals_pane::{detail_text, ApprovalEvent, Ticket};
use clawdia::tui::chat_pane::ChatMsg;
use clawdia::tui::keymap::{Action, ApprovalChoice};
use clawdia::tui::log_pane::{LogLine, TraceLevel};
use clawdia::tui::{App, AppEvent, ChatStep, Pane};

fn pane_ticket(id: &str) -> Ticket {
    Ticket {
        id: id.into(),
        session_id: SessionId::for_test("s1"),
        action_kind: "a".into(),
        args: JsonValue::Null,
        reason: "r".into(),
        hint: None,
        expires_at: 10,
    }
}

fn agent(name: &str, description: &str, actions: Vec<&str>) -> AgentConfig {
    AgentConfig {
        name: name.into(),
        description: description.into(),
        preamble: String::new(),
        authz_mode: AuthzMode::Cedarling,
        permitted_actions: actions.into_iter().map(|a| a.to_string()).collect(),
        max_turns: None,
        session_ttl: None,
    }
}

// ── runtime assembly ──

#[test]
fn build_runtime_starts_empty_with_given_identity() {
    let rt = build_runtime("secret", "laptop", " owner , auditor", AuthzBackend::Yaml);
    assert_eq!(rt.hmac_key, b"secret".to_vec());
    assert_eq!(rt.local_key_id, "laptop");
    assert_eq!(rt.local_roles, vec!["owner".to_string(), "auditor".to_string()]);
    assert_eq!(rt.authz_backend, AuthzBackend::Yaml);
    assert!(rt.gateway.tickets.list_all().unwrap().is_empty());
}

#[test]
fn build_runtime_empty_roles_give_one_empty_role() {
    let rt = build_runtime("k", "local", "", AuthzBackend::Cedar);
    assert_eq!(rt.local_roles, vec![String::new()]);
}

// ── the chat loop's decisions ──

#[test]
fn submit_chat_moves_input_to_history_and_asks_for_a_prompt() {
    let mut app = App::new();
    app.apply_action(Action::InputChar('h'));
    app.apply_action(Action::InputChar('i'));
    let step = app.apply_action(Action::SubmitChat(String::new()));
    match step {
        ChatStep::Prompt(t) => assert_eq!(t, "hi"),
        other => panic!("unexpected {other:?}"),
    }
    assert!(app.chat.input.is_empty());
    assert!(matches!(app.chat.history.last(), Some(ChatMsg::User(u)) if u == "hi"));
}

#[test]
fn submit_empty_chat_does_nothing() {
    let mut app = App::new();
    let step = app.apply_action(Action::SubmitChat(String::new()));
    assert!(matches!(step, ChatStep::Continue));
    assert!(app.chat.history.is_empty());
}

#[test]
fn backspace_removes_last_character_only() {
    let mut app = App::new();
    app.apply_action(Action::InputChar('a'));
    app.apply_action(Action::InputChar('é'));
    app.apply_action(Action::InputBackspace);
    assert_eq!(app.chat.input, "a");
    app.apply_action(Action::InputBackspace);
    app.apply_action(Action::InputBackspace);
    assert_eq!(app.chat.input, "");
}

#[test]
fn select_keys_move_the_focused_pane() {
    let mut app = App::new();
    app.reduce(AppEvent::Approval(ApprovalEvent::SetPending(vec![
        pane_ticket("t1"),
        pane_ticket("t2"),
    ])));
    app.apply_action(Action::SelectNext);
    assert_eq!(app.approvals.selected, 0, "chat focus leaves the selection alone");
    app.apply_action(Action::FocusNext);
    assert_eq!(app.focus, Pane::Approvals);
    app.apply_action(Action::SelectNext);
    assert_eq!(app.approvals.selected, 1);
    app.apply_action(Action::SelectNext);
    assert_eq!(app.approvals.selected, 1);
    app.apply_action(Action::SelectPrev);
    assert_eq!(app.approvals.selected, 0);

    app.apply_action(Action::FocusNext);
    assert_eq!(app.focus, Pane::Log);
    for i in 0..3 {
        app.reduce(AppEvent::Log(LogLine { at: 0, level: TraceLevel::Info, target: "t".into(), message: format!("m{i}") }));
    }
    assert_eq!(app.log.scroll, 2);
    app.apply_action(Action::SelectNext);
    assert_eq!(app.log.scroll, 1);
    app.apply_action(Action::SelectPrev);
    assert_eq!(app.log.scroll, 2);
}

#[test]
fn decide_names_the_selected_ticket() {
    let mut app = App::new();
    let step = app.apply_action(Action::ApprovalDecide(ApprovalChoice::Approve));
    assert!(matches!(step, ChatStep::Continue));
    app.reduce(AppEvent::Approval(ApprovalEvent::SetPending(vec![pane_ticket("t9")])));
    match app.apply_action(Action::ApprovalDecide(ApprovalChoice::Approve)) {
        ChatStep::Decide(id, ApprovalChoice::Approve) => assert_eq!(id, "t9"),
        other => panic!("unexpected {other:?}"),
    }
}

#[test]
fn quit_action_sets_quitting() {
    let mut app = App::new();
    assert!(matches!(app.apply_action(Action::Quit), ChatStep::Quit));
    assert!(app.quitting);
}

// ── command listings ──

#[test]
fn agents_report_lists_orchestrator_and_sub_agents() {
    let config = Config {
        orchestrator: agent("orch", "", vec![]),
        agents: vec![("researcher".into(), agent("Researcher", "finds things", vec!["search", "fetch"]))],
    };
    let lines = agents_report(&config);
    assert_eq!(
        lines,
        vec![
            "Orchestrator:",
            "  permitted_actions: (none — all tools denied)",
            "",
            "Sub-agents:",
            "",
            "  researcher:",
            "    name: Researcher",
            "    description: finds things",
            "    permitted_actions:",
            "      - search",
            "      - fetch",
            "",
        ]
    );
}

#[test]
fn tools_report_lists_each_server() {
    let servers = vec![(
        "web".to_string(),
        vec![
            McpToolInfo { name: "search".into(), description: Some("Search the web".into()) },
            McpToolInfo { name: "fetch".into(), description: None },
        ],
    )];
    let lines = tools_report(&servers);
    assert_eq!(
        lines,
        vec![
            "Available tools from MCP servers:",
            "",
            "  [web]",
            "    - search",
            "      Search the web",
            "",
            "    - fetch",
            "      (no description)",
            "",
            "Copy tool names into agents.yaml → permitted_actions to grant access.",
        ]
    );
}

#[test]
fn store_id_is_zero_padded_lower_hex() {
    assert_eq!(hex_store_id(0), "000000000000000000000000");
    assert_eq!(hex_store_id(255), "0000000000000000000000ff");
    assert_eq!(hex_store_id(0x1234_abcd), format!("{:024x}", 0x1234_abcdu128));
    assert_eq!(hex_store_id(u128::MAX), format!("{:024x}", u128::MAX));
}

// ── pane texts ──

#[test]
fn approvals_pane_rows_mark_the_selection() {
    let mut app = App::new();
    app.reduce(AppEvent::Approval(ApprovalEvent::SetPending(vec![pane_ticket("t1"), pane_ticket("t2")])));
    app.reduce(AppEvent::Approval(ApprovalEvent::SelectNext));
    assert_eq!(app.approvals.list_rows(), vec!["  t1".to_string(), "▸ t2".to_string()]);
}

#[test]
fn approvals_detail_text_shows_fields_hint_and_ttl() {
    let mut t = pane_ticket("t1");
    t.hint = Some("check twice".into());
    let text = detail_text(&t, "null", 125 * 1_000_000_000 + 5);
    assert_eq!(text, "Action: a\nSession: s1\nReason: r\nArgs: null\nHint: check twice\nTTL: 02:05");
    let t2 = pane_ticket("t2");
    assert_eq!(detail_text(&t2, "{}", 0), "Action: a\nSession: s1\nReason: r\nArgs: {}\nTTL: 00:00");
    assert!(detail_text(&t2, "{}", 6000 * 1_000_000_000).ends_with("TTL: 100:00"));
}

#[test]
fn deny_modal_text_embeds_reason() {
    let mut app = App::new();
    app.approvals.deny_reason = "too risky".into();
    assert_eq!(app.approvals.deny_modal_text(), "Reason for denial:\ntoo risky\n\n[Enter] submit  [Esc] cancel");
}

#[test]
fn log_visible_window_follows_scroll() {
    let mut app = App::new();
    for i in 0..5 {
        app.reduce(AppEvent::Log(LogLine { at: 0, level: TraceLevel::Info, target: "t".into(), message: format!("line{i}") }));
    }
    assert_eq!(app.log.scroll, 4);
    assert_eq!(app.log.visible(2, 3), vec!["lin".to_string(), "lin".to_string()]);
    assert_eq!(app.log.visible(2, 10), vec!["line2".to_string(), "line3".to_string()]);
    assert_eq!(app.log.visible(10, 10).len(), 5);
}

#[test]
fn chat_history_lines_and_input_are_cut_to_width() {
    let mut app = App::new();
    app.reduce(AppEvent::Chat(ChatMsg::User("hello world".into())));
    assert_eq!(app.chat.history_lines(5), vec!["You: hello".to_string()]);
    app.chat.input = "héllo".into();
    assert_eq!(app.chat.visible_input(2), "hé");
}

// ── policy store permissions ──

fn policy_file(stem: &str, ext: Option<&str>, content: &str) -> PolicyFile {
    PolicyFile { stem: stem.into(), extension: ext.map(|e| e.to_string()), content: content.into() }
}

#[test]
fn permissions_grouped_by_agent_prefix() {
    let files = vec![
        policy_file("researcher-search", Some("cedar"), "@tool(\"search\")\n@description(\"web search\")\npermit(principal, action, resource);"),
        policy_file("copywriter-write", Some("cedar"), "@tool(\"doc_write\")\n@description(\"write docs\")"),
        policy_file("researcher-fetch", Some("cedar"), "  @description(\"fetch pages\")  \n  @tool(\"fetch\")  "),
        policy_file("researcher-notes", Some("txt"), "@tool(\"x\")\n@description(\"y\")"),
        policy_file("verifier", Some("cedar"), "@tool(\"only_tool\")"),
        policy_file("README", None, "@tool(\"x\")\n@description(\"y\")"),
    ];
    let groups = permissions_from_files(&files);
    assert_eq!(groups.len(), 2);
    assert_eq!(groups[0].0, "researcher");
    let tools: Vec<&str> = groups[0].1.iter().map(|e| e.tool.as_str()).collect();
    assert_eq!(tools, vec!["search", "fetch"]);
    assert_eq!(groups[0].1[1].description, "fetch pages");
    assert_eq!(groups[1].0, "copywriter");
    assert_eq!(groups[1].1.len(), 1);
    assert_eq!(groups[1].1[0].tool, "doc_write");
}

#[test]
fn permissions_from_no_files_is_empty() {
    assert!(permissions_from_files(&vec![]).is_empty());
}
