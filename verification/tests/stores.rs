use clawdia::approvals::outcome::{ApproverIdentity, ApproverKind};
use clawdia::approvals::types::{Decision, Ticket, TicketId, TicketStatus};
use clawdia::json::JsonValue;
use clawdia::notifications::types::{Notification, NotificationId, NotificationRefs, Severity};
use clawdia::persistence::notifications::{InMemoryNotificationStore, NotificationStoreError};
use clawdia::persistence::tickets::{InMemoryTicketStore, TicketStoreError};
use clawdia::sessions::SessionId;

const SEC: u64 = 1_000_000_000;

fn mk_ticket(id: &str, sid: &str, status: TicketStatus) -> Ticket {
    Ticket {
        id: TicketId(id.into()),
        session_id: SessionId::for_test(sid),
        action_kind: "act".into(),
        args: JsonValue::Object(vec![]),
        args_hash: "sha256:00".into(),
        reason: "r".into(),
        hint: None,
        status,
        decision: None,
        created_at: 0,
        expires_at: 0,
        decided_at: None,
        consumed_at: None,
    }
}

// ── tickets ──

#[test]
fn create_then_get() {
    let mut s = InMemoryTicketStore::new();
    s.create(mk_ticket("t1", "s1", TicketStatus::Pending), "k1").unwrap();
    let got = s.get(&TicketId("t1".into())).unwrap().unwrap();
    assert_eq!(got.id.0, "t1");
}

#[test]
fn find_by_correlation_idempotent() {
    let mut s = InMemoryTicketStore::new();
    s.create(mk_ticket("t1", "s1", TicketStatus::Pending), "k1").unwrap();
    let got = s.find_by_correlation("k1").unwrap().unwrap();
    assert_eq!(got.id.0, "t1");
    assert!(s.find_by_correlation("k2").unwrap().is_none());
}

#[test]
fn update_status_transitions_pending_to_approved() {
    let mut s = InMemoryTicketStore::new();
    s.create(mk_ticket("t1", "s1", TicketStatus::Pending), "k1").unwrap();
    s.update_status(&TicketId("t1".into()), TicketStatus::Approved).unwrap();
    assert_eq!(s.get(&TicketId("t1".into())).unwrap().unwrap().status, TicketStatus::Approved);
}

#[test]
fn record_decision_persists_decision() {
    let mut s = InMemoryTicketStore::new();
    s.create(mk_ticket("t1", "s1", TicketStatus::Pending), "k1").unwrap();
    let dec = Decision {
        approver: ApproverIdentity { kind: ApproverKind::LocalKey { key_id: "k".into() }, roles: vec![] },
        signature: vec![1, 2, 3],
        reason: None,
    };
    s.record_decision(&TicketId("t1".into()), dec, 42).unwrap();
    let t = s.get(&TicketId("t1".into())).unwrap().unwrap();
    assert!(t.decision.is_some());
    assert!(t.decided_at.is_some());
    assert_eq!(t.decided_at, Some(42));
}

#[test]
fn list_by_session_filters() {
    let mut s = InMemoryTicketStore::new();
    s.create(mk_ticket("t1", "s1", TicketStatus::Pending), "k1").unwrap();
    s.create(mk_ticket("t2", "s2", TicketStatus::Pending), "k2").unwrap();
    s.create(mk_ticket("t3", "s1", TicketStatus::Approved), "k3").unwrap();
    let list = s.list_by_session(&SessionId::for_test("s1")).unwrap();
    assert_eq!(list.len(), 2);
    assert_eq!(list[0].id.0, "t1");
    assert_eq!(list[1].id.0, "t3");
}

#[test]
fn list_all_returns_every_ticket() {
    let mut s = InMemoryTicketStore::new();
    s.create(mk_ticket("t1", "s1", TicketStatus::Pending), "k1").unwrap();
    s.create(mk_ticket("t2", "s2", TicketStatus::Pending), "k2").unwrap();
    assert_eq!(s.list_all().unwrap().len(), 2);
}

#[test]
fn unknown_id_returns_none() {
    let s = InMemoryTicketStore::new();
    assert!(s.get(&TicketId("nope".into())).unwrap().is_none());
}

#[test]
fn duplicate_create_rejected() {
    let mut s = InMemoryTicketStore::new();
    s.create(mk_ticket("t1", "s1", TicketStatus::Pending), "k1").unwrap();
    let err = s.create(mk_ticket("t1", "s1", TicketStatus::Pending), "kx").unwrap_err();
    assert!(matches!(err, TicketStoreError::Duplicate(ref id) if id.0 == "t1"));
    assert!(s.find_by_correlation("kx").unwrap().is_none());
}

#[test]
fn update_unknown_ticket_is_not_found() {
    let mut s = InMemoryTicketStore::new();
    let err = s.update_status(&TicketId("zz".into()), TicketStatus::Approved).unwrap_err();
    assert!(matches!(err, TicketStoreError::NotFound(ref id) if id.0 == "zz"));
}

// ── notifications ──

fn mk(id: &str, emitted_by: &str, emitted_at: u64) -> Notification {
    Notification {
        id: NotificationId(id.into()),
        severity: Severity::Info,
        subject: "subj".into(),
        body: "body".into(),
        refs: NotificationRefs::default(),
        emitted_by: SessionId::for_test(emitted_by),
        emitted_at,
    }
}

#[test]
fn record_and_list_returns_fifo_order() {
    let mut store = InMemoryNotificationStore::new();
    let t1 = SEC;
    let t2 = 2 * SEC;
    let t3 = 3 * SEC;
    store.record(mk("a", "s1", t1)).unwrap();
    store.record(mk("b", "s1", t2)).unwrap();
    store.record(mk("c", "s1", t3)).unwrap();
    let all = store.list(None).unwrap();
    assert_eq!(all.len(), 3);
    assert_eq!(all[0].emitted_at, t1);
    assert_eq!(all[2].emitted_at, t3);
}

#[test]
fn list_with_since_filters_strictly_after() {
    let mut store = InMemoryNotificationStore::new();
    let t1 = SEC;
    let t2 = 2 * SEC;
    let t3 = 3 * SEC;
    store.record(mk("a", "s1", t1)).unwrap();
    store.record(mk("b", "s1", t2)).unwrap();
    store.record(mk("c", "s1", t3)).unwrap();
    let result = store.list(Some(t2)).unwrap();
    assert_eq!(result.len(), 1);
    assert_eq!(result[0].emitted_at, t3);
}

#[test]
fn list_with_none_returns_all() {
    let mut store = InMemoryNotificationStore::new();
    store.record(mk("a", "s1", 0)).unwrap();
    store.record(mk("b", "s1", SEC)).unwrap();
    assert_eq!(store.list(None).unwrap().len(), 2);
}

#[test]
fn list_by_session_filters_by_emitted_by() {
    let mut store = InMemoryNotificationStore::new();
    let s1 = SessionId::for_test("s1");
    store.record(mk("a", "s1", 0)).unwrap();
    store.record(mk("b", "s2", 0)).unwrap();
    let result = store.list_by_session(&s1).unwrap();
    assert_eq!(result.len(), 1);
    assert_eq!(result[0].id.0, "a");
}

#[test]
fn list_by_session_filters_by_refs_session_id() {
    let mut store = InMemoryNotificationStore::new();
    let s1 = SessionId::for_test("s1");
    let mut n = mk("a", "s2", 0);
    n.refs.session_id = Some(s1.clone());
    store.record(n).unwrap();
    let result = store.list_by_session(&s1).unwrap();
    assert_eq!(result.len(), 1);
    assert_eq!(result[0].id.0, "a");
}

#[test]
fn list_by_session_filters_by_refs_child_session_id() {
    let mut store = InMemoryNotificationStore::new();
    let s1 = SessionId::for_test("s1");
    let mut n = mk("a", "s2", 0);
    n.refs.child_session_id = Some(s1.clone());
    store.record(n).unwrap();
    let result = store.list_by_session(&s1).unwrap();
    assert_eq!(result.len(), 1);
    assert_eq!(result[0].id.0, "a");
}

#[test]
fn record_rejects_duplicate_id() {
    let mut store = InMemoryNotificationStore::new();
    store.record(mk("dup", "s1", 0)).unwrap();
    let err = store.record(mk("dup", "s2", 0)).unwrap_err();
    match err {
        NotificationStoreError::Duplicate(id) => assert_eq!(id, "dup"),
    }
    assert_eq!(store.list(None).unwrap().len(), 1);
}
