use clawdia::agents::{AgentConfig, AuthzMode};
use clawdia::config::{
    cap_ticket_expiry, resolve_approval_ttl, resolve_child_ttl, resolve_max_turns, resolve_session_ttl, validate,
    ApprovalsConfig, Config, ConfigError, PersistenceBackend, RuntimeConfig, SessionDeadline,
    HARD_APPROVAL_TTL_FALLBACK,
};
use clawdia::notifications::emit::{emit_notification, emit_notification_at, notification_log, EmitArgs, LogLevel};
use clawdia::notifications::tool::{NotifyHumanArgs, NotifyHumanError, NotifyHumanTool, BODY_MAX_BYTES};
use clawdia::notifications::types::{
    more_severe, NotificationIdGenerator, NotificationRefs, Severity,
};
use clawdia::persistence::notifications::InMemoryNotificationStore;
use clawdia::sessions::SessionId;

const SEC: u64 = 1_000_000_000;

fn agent(max_turns: Option<u32>, session_ttl: Option<u64>) -> AgentConfig {
    AgentConfig {
        name: "test".into(),
        description: String::new(),
        preamble: String::new(),
        authz_mode: AuthzMode::Cedarling,
        permitted_actions: vec![],
        max_turns,
        session_ttl,
    }
}

// ── resolution ──

#[test]
fn resolve_max_turns_agent_some_wins() {
    let runtime = RuntimeConfig { default_max_turns: 40, ..Default::default() };
    assert_eq!(resolve_max_turns(&agent(Some(99), None), &runtime), 99);
}

#[test]
fn resolve_max_turns_runtime_default_when_agent_none() {
    let runtime = RuntimeConfig { default_max_turns: 7, ..Default::default() };
    assert_eq!(resolve_max_turns(&agent(None, None), &runtime), 7);
}

#[test]
fn resolve_max_turns_fallback_to_constant() {
    let runtime = RuntimeConfig::default();
    assert_eq!(resolve_max_turns(&agent(None, None), &runtime), 40);
}

#[test]
fn resolve_max_turns_min_clamped_to_1() {
    let runtime = RuntimeConfig::default();
    assert_eq!(resolve_max_turns(&agent(Some(0), None), &runtime), 1);
}

#[test]
fn resolve_session_ttl_agent_some_wins() {
    let runtime = RuntimeConfig { default_session_ttl: Some(600 * SEC), ..Default::default() };
    assert_eq!(resolve_session_ttl(&agent(None, Some(300 * SEC)), &runtime), Some(300 * SEC));
}

#[test]
fn resolve_session_ttl_runtime_default_when_agent_none() {
    let runtime = RuntimeConfig { default_session_ttl: Some(600 * SEC), ..Default::default() };
    assert_eq!(resolve_session_ttl(&agent(None, None), &runtime), Some(600 * SEC));
}

#[test]
fn resolve_session_ttl_both_none_returns_none() {
    let runtime = RuntimeConfig::default();
    assert_eq!(resolve_session_ttl(&agent(None, None), &runtime), None);
}

#[test]
fn resolve_child_ttl_no_parent_deadline() {
    let now = 1_000 * SEC;
    let runtime = RuntimeConfig::default();
    let result = resolve_child_ttl(now, SessionDeadline { deadline: None }, &runtime);
    assert_eq!(result, now + runtime.default_child_ttl);
}

#[test]
fn resolve_child_ttl_plenty_remaining() {
    let now = 1_000 * SEC;
    let runtime = RuntimeConfig::default();
    let result = resolve_child_ttl(now, SessionDeadline { deadline: Some(now + 3600 * SEC) }, &runtime);
    assert_eq!(result, now + runtime.default_child_ttl);
}

#[test]
fn resolve_child_ttl_tight_remaining() {
    let now = 1_000 * SEC;
    let parent_deadline = now + 120 * SEC;
    let runtime = RuntimeConfig::default();
    let result = resolve_child_ttl(now, SessionDeadline { deadline: Some(parent_deadline) }, &runtime);
    assert_eq!(result, parent_deadline - runtime.child_ttl_margin);
}

#[test]
fn resolve_child_ttl_very_tight_clamps_to_deadline() {
    let now = 1_000 * SEC;
    let parent_deadline = now + 10 * SEC;
    let runtime = RuntimeConfig::default();
    let result = resolve_child_ttl(now, SessionDeadline { deadline: Some(parent_deadline) }, &runtime);
    assert_eq!(result, parent_deadline);
}

#[test]
fn resolve_approval_ttl_override_wins() {
    let approvals = ApprovalsConfig { ttl_overrides: vec![("tool.test".to_string(), 120 * SEC)] };
    assert_eq!(resolve_approval_ttl("tool.test", &approvals, Some(600 * SEC)), 120 * SEC);
}

#[test]
fn resolve_approval_ttl_runtime_default_when_no_override() {
    let approvals = ApprovalsConfig::default();
    assert_eq!(resolve_approval_ttl("tool.test", &approvals, Some(600 * SEC)), 600 * SEC);
}

#[test]
fn resolve_approval_ttl_hard_fallback_when_both_absent() {
    let approvals = ApprovalsConfig::default();
    assert_eq!(resolve_approval_ttl("tool.test", &approvals, None), HARD_APPROVAL_TTL_FALLBACK);
    assert_eq!(HARD_APPROVAL_TTL_FALLBACK, 600 * SEC);
}

#[test]
fn resolve_approval_ttl_zero_is_valid_explicit_not_overridden() {
    let approvals = ApprovalsConfig::default();
    assert_eq!(resolve_approval_ttl("tool.test", &approvals, Some(0)), 0);
}

#[test]
fn cap_ticket_expiry_session_deadline_sooner() {
    let now = 1_000 * SEC;
    let result = cap_ticket_expiry(now, 600 * SEC, Some(now + 60 * SEC));
    assert_eq!(result, now + 60 * SEC);
}

#[test]
fn cap_ticket_expiry_action_ttl_sooner() {
    let now = 1_000 * SEC;
    let result = cap_ticket_expiry(now, 60 * SEC, Some(now + 3600 * SEC));
    assert_eq!(result, now + 60 * SEC);
}

#[test]
fn cap_ticket_expiry_no_session_deadline() {
    let now = 1_000 * SEC;
    assert_eq!(cap_ticket_expiry(now, 60 * SEC, None), now + 60 * SEC);
}

#[test]
fn runtime_defaults() {
    let d = RuntimeConfig::default();
    assert_eq!(d.default_max_turns, 40);
    assert_eq!(d.default_session_ttl, None);
    assert_eq!(d.default_child_ttl, 30 * 60 * SEC);
    assert_eq!(d.child_ttl_margin, 30 * SEC);
    assert_eq!(d.approval_default_ttl, None);
    assert_eq!(d.persistence, PersistenceBackend::Memory);
}

// ── validation ──

fn make_config(persistence: PersistenceBackend) -> Config {
    Config {
        runtime: RuntimeConfig { persistence, ..Default::default() },
        approvals: ApprovalsConfig::default(),
        orchestrator: AgentConfig {
            name: "orchestrator".into(),
            description: String::new(),
            preamble: "test".into(),
            authz_mode: AuthzMode::Cedarling,
            permitted_actions: vec![],
            max_turns: None,
            session_ttl: None,
        },
        agents: Vec::new(),
    }
}

#[test]
fn rejects_sqlite_persistence() {
    let cfg = make_config(PersistenceBackend::Sqlite);
    let err = validate(&cfg).unwrap_err();
    assert!(matches!(&err, ConfigError::PersistenceUnimplemented { backend } if backend == "sqlite"));
}

#[test]
fn accepts_memory_persistence() {
    let cfg = make_config(PersistenceBackend::Memory);
    assert!(validate(&cfg).is_ok());
}

// ── notification types ──

#[test]
fn severity_ordering() {
    assert!(Severity::Blocker > Severity::Error);
    assert!(Severity::Error > Severity::Warn);
    assert!(Severity::Warn > Severity::Info);
    assert!(more_severe(Severity::Blocker, Severity::Error));
    assert!(!more_severe(Severity::Info, Severity::Warn));
}

#[test]
fn notification_id_sequential() {
    let mut idgen = NotificationIdGenerator::new();
    let a = idgen.next();
    let b = idgen.next();
    assert_ne!(a, b);
    assert!(a.0.starts_with("n_"));
    assert!(b.0.starts_with("n_"));
    assert_eq!(a.0, "n_0");
    assert_eq!(b.0, "n_1");
}

// ── emit ──

fn args(severity: Severity, sid: &str) -> EmitArgs {
    EmitArgs {
        severity,
        subject: "subj".into(),
        body: "body".into(),
        refs: NotificationRefs::default(),
        emitted_by: SessionId::for_test(sid),
    }
}

#[test]
fn emit_records_in_store() {
    let mut store = InMemoryNotificationStore::new();
    let mut idgen = NotificationIdGenerator::new();
    let id = emit_notification(&mut store, &mut idgen, args(Severity::Info, "s1")).unwrap();
    let listed = store.list(None).unwrap();
    assert_eq!(listed.len(), 1);
    assert_eq!(listed[0].id, id);
}

#[test]
fn emit_returns_fresh_unique_ids() {
    let mut store = InMemoryNotificationStore::new();
    let mut idgen = NotificationIdGenerator::new();
    let a = emit_notification(&mut store, &mut idgen, args(Severity::Info, "s1")).unwrap();
    let b = emit_notification(&mut store, &mut idgen, args(Severity::Warn, "s2")).unwrap();
    assert_ne!(a, b);
}

#[test]
fn emit_is_sync_no_session_state_touch() {
    let mut store = InMemoryNotificationStore::new();
    let mut idgen = NotificationIdGenerator::new();
    emit_notification(&mut store, &mut idgen, args(Severity::Info, "s1")).unwrap();
}

#[test]
fn emit_blocker_uses_blocker_prefix_in_log() {
    let mut store = InMemoryNotificationStore::new();
    let mut idgen = NotificationIdGenerator::new();
    let (_, n) = emit_notification_at(&mut store, &mut idgen, args(Severity::Blocker, "s1"), 5).unwrap();
    let log = notification_log(&n);
    assert!(log.message.contains("[BLOCKER]"));
    assert_eq!(log.message, "[BLOCKER] body");
    assert!(log.blocker);
    assert_eq!(log.level, LogLevel::Error);
}

#[test]
fn emit_warn_logs_at_warn_level() {
    let mut store = InMemoryNotificationStore::new();
    let mut idgen = NotificationIdGenerator::new();
    let (_, n) = emit_notification_at(&mut store, &mut idgen, args(Severity::Warn, "s1"), 5).unwrap();
    let log = notification_log(&n);
    assert!(log.message.contains("body"));
    assert_eq!(log.level, LogLevel::Warn);
    assert_eq!(n.emitted_at, 5);
}

// ── notify_human ──

fn harness() -> (NotifyHumanTool, InMemoryNotificationStore, NotificationIdGenerator) {
    let tool = NotifyHumanTool { caller_session_id: SessionId::for_test("s_orchestrator") };
    (tool, InMemoryNotificationStore::new(), NotificationIdGenerator::new())
}

fn nargs(severity: Severity, subject: &str, body: &str) -> NotifyHumanArgs {
    NotifyHumanArgs { severity, subject: subject.into(), body: body.into(), refs: NotificationRefs::default() }
}

#[test]
fn notify_human_records_and_returns_id() {
    let (tool, mut store, mut idgen) = harness();
    let res = tool.call(&mut store, &mut idgen, nargs(Severity::Warn, "subj", "body")).unwrap();
    let listed = store.list(None).unwrap();
    assert_eq!(listed.len(), 1);
    assert_eq!(listed[0].id.0, res.notification_id);
    assert_eq!(listed[0].severity, Severity::Warn);
}

#[test]
fn notify_human_rejects_empty_subject() {
    let (tool, mut store, mut idgen) = harness();
    let err = tool.call(&mut store, &mut idgen, nargs(Severity::Info, "", "body")).unwrap_err();
    assert!(matches!(err, NotifyHumanError::EmptySubject));
    assert!(store.list(None).unwrap().is_empty());
}

#[test]
fn notify_human_rejects_whitespace_only_subject() {
    let (tool, mut store, mut idgen) = harness();
    let err = tool.call(&mut store, &mut idgen, nargs(Severity::Info, "   \t\n\u{3000}", "body")).unwrap_err();
    assert!(matches!(err, NotifyHumanError::EmptySubject));
}

#[test]
fn notify_human_rejects_oversize_body() {
    let (tool, mut store, mut idgen) = harness();
    let big = "a".repeat(BODY_MAX_BYTES + 1);
    let err = tool.call(&mut store, &mut idgen, nargs(Severity::Info, "s", &big)).unwrap_err();
    assert!(matches!(err, NotifyHumanError::BodyTooLarge));
    assert!(store.list(None).unwrap().is_empty());
}

#[test]
fn notify_human_counts_body_in_bytes() {
    let (tool, mut store, mut idgen) = harness();
    // 16385 four-byte characters: 65540 bytes, over the limit in bytes.
    let big = "🌊".repeat(BODY_MAX_BYTES / 4 + 1);
    let err = tool.call(&mut store, &mut idgen, nargs(Severity::Info, "s", &big)).unwrap_err();
    assert!(matches!(err, NotifyHumanError::BodyTooLarge));
    let exact = "a".repeat(BODY_MAX_BYTES);
    assert!(tool.call(&mut store, &mut idgen, nargs(Severity::Info, "s", &exact)).is_ok());
}

#[test]
fn notify_human_attaches_caller_session_id() {
    let (tool, mut store, mut idgen) = harness();
    tool.call(&mut store, &mut idgen, nargs(Severity::Info, "s", "b")).unwrap();
    let n = store.list(None).unwrap().pop().unwrap();
    assert_eq!(n.emitted_by, SessionId::for_test("s_orchestrator"));
}
