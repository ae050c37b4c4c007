use clawdia::approvals::outcome::{ApprovalOutcome, ApproverIdentity, ApproverKind};
use clawdia::approvals::types::TicketId;
use clawdia::inbox::{render, render_for_turn, SystemMsg};
use clawdia::persistence::memory::{InMemoryInbox, InMemorySessionStore};
use clawdia::persistence::{SessionEvent, TerminalOutcome};
use clawdia::sessions::{
    to_base36, Principal, Session, SessionError, SessionId, SessionIdGenerator, SessionStatus, Wait, WaitRef,
    WaitRefKind,
};
use clawdia::sub_agent::outcome::{AbandonReason, SubAgentOutcome};

const SEC: u64 = 1_000_000_000;

// ── identifiers ──

#[test]
fn generator_produces_distinct_sequential_ids() {
    let mut gen_ = SessionIdGenerator::new();
    let a = gen_.next();
    let b = gen_.next();
    let c = gen_.next();
    assert_ne!(a, b);
    assert_ne!(b, c);
    assert!(a.as_str().starts_with("s_"));
}

#[test]
fn from_string_accepts_well_formed() {
    let id = SessionId::from_string("s_1a".to_string()).unwrap();
    assert_eq!(id.as_str(), "s_1a");
}

#[test]
fn from_string_rejects_missing_prefix() {
    assert!(SessionId::from_string("1a".to_string()).is_err());
}

#[test]
fn from_string_rejects_bare_prefix() {
    let err = SessionId::from_string("s_".to_string()).unwrap_err();
    assert_eq!(err.0, "s_");
}

#[test]
fn generator_counts_in_base36() {
    let mut gen_ = SessionIdGenerator::new();
    let ids: Vec<String> = (0..38).map(|_| gen_.next().into_string()).collect();
    assert_eq!(ids[0], "s_0");
    assert_eq!(ids[9], "s_9");
    assert_eq!(ids[10], "s_a");
    assert_eq!(ids[35], "s_z");
    assert_eq!(ids[36], "s_10");
    assert_eq!(ids[37], "s_11");
    let unique: std::collections::HashSet<_> = ids.iter().cloned().collect();
    assert_eq!(unique.len(), ids.len());
}

#[test]
fn base36_renders_large_numbers() {
    assert_eq!(to_base36(0), "0");
    assert_eq!(to_base36(36 * 36), "100");
    assert_eq!(to_base36(u64::MAX), "3w5e11264sgsf");
}

// ── session records ──

fn session(id: &str) -> Session {
    Session::new(SessionId::from_string(id.to_string()).unwrap(), None, "t".to_string(), Principal("anon".to_string()), None)
}

#[test]
fn finished_session_cannot_reopen() {
    let mut s = session("s_1");
    s.transition(SessionStatus::Done).unwrap();
    let err = s.transition(SessionStatus::Active).unwrap_err();
    assert!(matches!(err, SessionError::InvalidTransition { from: SessionStatus::Done, to: SessionStatus::Active }));
    assert_eq!(s.status, SessionStatus::Done);
    assert!(s.transition(SessionStatus::Done).is_ok());
}

#[test]
fn wait_refs_name_what_is_awaited() {
    let r = WaitRef::from_wait(&Wait::Approval(TicketId("tk_9".into())));
    assert_eq!(r.kind, WaitRefKind::Approval);
    assert_eq!(r.label, "tk_9");
    let r = WaitRef::from_wait(&Wait::UserMessage);
    assert_eq!(r.kind, WaitRefKind::UserMessage);
    assert_eq!(r.label, "");
}

// ── session store ──

#[test]
fn insert_and_get_roundtrip() {
    let mut store = InMemorySessionStore::new();
    let id = store.create_root("t".into(), Principal("anon".into()), None).unwrap();
    let got = store.get(&id).unwrap().unwrap();
    assert_eq!(got.id, id);
    assert_eq!(got.status, SessionStatus::Active);
    assert!(store.session_exists(&id).unwrap());
}

#[test]
fn add_and_remove_wait() {
    let mut store = InMemorySessionStore::new();
    let id = store.create_root("t".into(), Principal("anon".into()), None).unwrap();
    store.add_wait(&id, Wait::UserMessage).unwrap();
    store.add_wait(&id, Wait::UserMessage).unwrap();
    let got = store.get(&id).unwrap().unwrap();
    assert_eq!(got.waits.len(), 1);
    store.remove_wait(&id, &Wait::UserMessage).unwrap();
    let got = store.get(&id).unwrap().unwrap();
    assert!(got.waits.is_empty());
    let events = store.take_events();
    assert_eq!(events.len(), 3);
    assert_eq!(events[2].1, SessionEvent::WaitResolved);
}

#[test]
fn list_active_excludes_terminal() {
    let mut store = InMemorySessionStore::new();
    let id = store.create_root("t".into(), Principal("anon".into()), None).unwrap();
    store.set_status(&id, SessionStatus::Done).unwrap();
    assert!(store.list_active().unwrap().is_empty());
}

#[test]
fn child_sessions_remember_their_parent() {
    let mut store = InMemorySessionStore::new();
    let root = store.create_root("orch".into(), Principal("anon".into()), Some(100)).unwrap();
    let child = store.create_child(&root, "researcher".into(), Principal("anon".into()), Some(50)).unwrap();
    assert_eq!(root.as_str(), "s_0");
    assert_eq!(child.as_str(), "s_1");
    let c = store.get(&child).unwrap().unwrap();
    assert_eq!(c.parent, Some(root));
    assert_eq!(c.deadline, Some(50));
}

#[test]
fn unknown_session_is_not_found() {
    let mut store = InMemorySessionStore::new();
    let ghost = SessionId::for_test("s_zz");
    assert!(matches!(store.set_status(&ghost, SessionStatus::Done), Err(SessionError::NotFound(s)) if s == "s_zz"));
    assert!(store.add_wait(&ghost, Wait::UserMessage).is_err());
    assert!(store.waits(&ghost).unwrap().is_empty());
    assert_eq!(store.status(&ghost).unwrap(), None);
}

#[test]
fn mark_terminal_from_outcome_maps_outcomes() {
    let mut store = InMemorySessionStore::new();
    let a = store.create_root("a".into(), Principal("anon".into()), None).unwrap();
    let b = store.create_root("b".into(), Principal("anon".into()), None).unwrap();
    store.mark_terminal_from_outcome(&a, TerminalOutcome::Done).unwrap();
    store.mark_terminal_from_outcome(&b, TerminalOutcome::Abandoned(AbandonReason::DeadlineExceeded)).unwrap();
    assert_eq!(store.status(&a).unwrap(), Some(SessionStatus::Done));
    assert_eq!(store.status(&b).unwrap(), Some(SessionStatus::Abandoned));
}

#[test]
fn wait_refs_of_a_session_follow_its_waits() {
    let mut store = InMemorySessionStore::new();
    let id = store.create_root("t".into(), Principal("anon".into()), None).unwrap();
    store.add_wait(&id, Wait::Approval(TicketId("tk_1".into()))).unwrap();
    store.add_wait(&id, Wait::SubAgent(SessionId::for_test("s_9"))).unwrap();
    let refs = store.wait_refs(&id).unwrap();
    assert_eq!(refs.len(), 2);
    assert_eq!(refs[1].kind, WaitRefKind::SubAgent);
    assert_eq!(refs[1].label, "s_9");
}

// ── inbox ──

fn user_msg(text: &str) -> SystemMsg {
    SystemMsg::UserMessage { text: text.to_string(), received_at: 0 }
}

#[test]
fn inbox_push_drain_fifo() {
    let mut inbox = InMemoryInbox::new();
    let id = SessionId::from_string("s_1".to_string()).unwrap();
    inbox.push(&id, user_msg("first")).unwrap();
    inbox.push(&id, user_msg("second")).unwrap();
    let drained = inbox.drain(&id).unwrap();
    assert_eq!(drained.len(), 2);
    match (&drained[0], &drained[1]) {
        (SystemMsg::UserMessage { text: a, .. }, SystemMsg::UserMessage { text: b, .. }) => {
            assert_eq!(a, "first");
            assert_eq!(b, "second");
        },
        _ => panic!("unexpected variants"),
    }
    assert!(inbox.drain(&id).unwrap().is_empty());
}

#[test]
fn inbox_lanes_are_separate() {
    let mut inbox = InMemoryInbox::new();
    let a = SessionId::for_test("s_a");
    let b = SessionId::for_test("s_b");
    inbox.push(&a, user_msg("for a")).unwrap();
    inbox.push(&b, user_msg("for b")).unwrap();
    assert_eq!(inbox.drain(&a).unwrap().len(), 1);
    assert_eq!(inbox.drain(&b).unwrap().len(), 1);
}

#[test]
fn inbox_close_drops_pending_messages() {
    let mut inbox = InMemoryInbox::new();
    let a = SessionId::for_test("s_a");
    inbox.push(&a, user_msg("x")).unwrap();
    inbox.close(&a).unwrap();
    assert!(inbox.drain(&a).unwrap().is_empty());
}

// ── rendering ──

#[test]
fn renders_approval_decided() {
    let msg = SystemMsg::ApprovalDecided {
        ticket_id: TicketId("tk_1".to_string()),
        action_kind: "doc.publish".to_string(),
        decision: ApprovalOutcome::Approved,
        approver: ApproverIdentity {
            kind: ApproverKind::LocalKey { key_id: "k1".to_string() },
            roles: vec!["operator".to_string()],
        },
        decided_at: 0,
    };
    let s = render(&msg);
    assert!(s.contains("tk_1"));
    assert!(s.contains("doc.publish"));
    assert_eq!(s, "approval ticket tk_1 for action doc.publish decided");
}

#[test]
fn renders_subagent_finished() {
    let msg = SystemMsg::SubAgentFinished {
        child_session_id: SessionId::from_string("s_7".to_string()).unwrap(),
        agent_label: "researcher".to_string(),
        outcome: SubAgentOutcome::Done { summary: "ok".to_string(), result: "{}".to_string() },
        finished_at: 0,
    };
    let s = render(&msg);
    assert!(s.contains("researcher"));
    assert!(s.contains("s_7"));
    assert_eq!(s, "sub-agent researcher/s_7 finished");
}

#[test]
fn renders_user_message_with_unicode_truncation() {
    let msg = SystemMsg::UserMessage { text: "🌊".repeat(200), received_at: 0 };
    let s = render(&msg);
    assert!(s.starts_with("user said: "));
    assert_eq!(s.chars().count(), "user said: ".len() + 80);
}

#[test]
fn renders_deadline_warning() {
    let msg = SystemMsg::DeadlineWarning { remaining: 42 * SEC };
    let s = render(&msg);
    assert!(s.contains("42"));
    assert_eq!(s, "deadline warning: 42 seconds remaining");
}

#[test]
fn deadline_warning_rounds_down_to_seconds() {
    let msg = SystemMsg::DeadlineWarning { remaining: 42 * SEC + SEC - 1 };
    assert_eq!(render(&msg), "deadline warning: 42 seconds remaining");
}

#[test]
fn render_for_turn_includes_wait_header_when_waits_present() {
    let mut sess = session("s_1");
    sess.waits.push(Wait::Approval(TicketId("tk_9".to_string())));
    let out = render_for_turn(&sess, &[]);
    assert!(out.contains("Currently waiting on:"));
    assert!(out.contains("approval:tk_9"));
}

#[test]
fn render_for_turn_lists_waits_and_messages() {
    let mut sess = session("s_1");
    sess.waits.push(Wait::Approval(TicketId("tk_9".to_string())));
    sess.waits.push(Wait::SubAgent(SessionId::for_test("s_4")));
    sess.waits.push(Wait::UserMessage);
    let out = render_for_turn(&sess, &[user_msg("hi"), user_msg("there")]);
    assert_eq!(
        out,
        "Currently waiting on: [approval:tk_9, sub_agent:s_4, user_message]\n- user said: hi\n- user said: there\n"
    );
}

#[test]
fn render_for_turn_without_waits_has_no_header() {
    let sess = session("s_1");
    assert_eq!(render_for_turn(&sess, &[]), "");
    assert_eq!(render_for_turn(&sess, &[user_msg("x")]), "- user said: x\n");
}
