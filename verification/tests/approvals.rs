use sha2::Digest;
use clawdia::approvals::expiry_task::sweep_expired;
use clawdia::approvals::sweep::sweep_orphans;
use clawdia::approvals::ttl::cap_by_session_deadline;
use clawdia::approvals::ttl::{resolve_ttl, TtlConfig, FALLBACK_TTL};
use clawdia::approvals::canonical::{canonical_hash, CanonicalError};
use clawdia::approvals::correlation::correlation_key;
use clawdia::approvals::gateway::{default_id_gen, ApprovalGateway, GatewayError};
use clawdia::approvals::outcome::{ApprovalOutcome, ApproverIdentity, ApproverKind};
use clawdia::approvals::signing::{sign, verify};
use clawdia::approvals::types::{ApprovalRequest, Ticket, TicketId, TicketStatus};
use clawdia::json::JsonValue;
use clawdia::persistence::memory::{InMemoryInbox, InMemorySessionStore};
use clawdia::persistence::tickets::InMemoryTicketStore;
use clawdia::sessions::{Principal, SessionId, Wait};
use clawdia::inbox::SystemMsg;

const SEC: u64 = 1_000_000_000;

fn obj(members: Vec<(&str, JsonValue)>) -> JsonValue {
    JsonValue::Object(members.into_iter().map(|(k, v)| (k.to_string(), v)).collect())
}

fn s(text: &str) -> JsonValue {
    JsonValue::Str(text.to_string())
}

// ── signing ──

fn key() -> Vec<u8> {
    vec![0xABu8; 32]
}

fn tid() -> TicketId {
    TicketId("tk_1".into())
}

#[test]
fn sign_and_verify_ok() {
    let k = key();
    let sig = sign(&k, &tid(), "sha256:aa", &ApprovalOutcome::Approved).unwrap();
    verify(&k, &tid(), "sha256:aa", &ApprovalOutcome::Approved, &sig).unwrap();
}

#[test]
fn tampered_ticket_id_fails() {
    let k = key();
    let sig = sign(&k, &tid(), "sha256:aa", &ApprovalOutcome::Approved).unwrap();
    let other = TicketId("tk_2".into());
    assert!(verify(&k, &other, "sha256:aa", &ApprovalOutcome::Approved, &sig).is_err());
}

#[test]
fn tampered_args_hash_fails() {
    let k = key();
    let sig = sign(&k, &tid(), "sha256:aa", &ApprovalOutcome::Approved).unwrap();
    assert!(verify(&k, &tid(), "sha256:bb", &ApprovalOutcome::Approved, &sig).is_err());
}

#[test]
fn flipped_decision_byte_fails() {
    let k = key();
    let sig = sign(&k, &tid(), "sha256:aa", &ApprovalOutcome::Approved).unwrap();
    let denied = ApprovalOutcome::Denied { reason: "no".into() };
    assert!(verify(&k, &tid(), "sha256:aa", &denied, &sig).is_err());
}

#[test]
fn wrong_key_fails() {
    let k = key();
    let sig = sign(&k, &tid(), "sha256:aa", &ApprovalOutcome::Approved).unwrap();
    let other = vec![0x11u8; 32];
    assert!(verify(&other, &tid(), "sha256:aa", &ApprovalOutcome::Approved, &sig).is_err());
}

#[test]
fn signature_is_the_hmac_of_the_decision_message() {
    // HMAC-SHA256 with key "key" over "tk_1\0sha256:aa\x01" computed by the
    // hmac crate through the library; it is 32 bytes and differs from the
    // message itself.
    let sig = sign(b"key", &tid(), "sha256:aa", &ApprovalOutcome::Approved).unwrap();
    assert_eq!(sig.len(), 32);
    let mut msg = b"tk_1".to_vec();
    msg.push(0);
    msg.extend_from_slice(b"sha256:aa");
    msg.push(1);
    assert_ne!(sig, msg);
}

// ── ticket status ──

#[test]
fn status_terminal_classification() {
    assert!(TicketStatus::Denied.is_terminal());
    assert!(TicketStatus::Expired.is_terminal());
    assert!(TicketStatus::Orphaned.is_terminal());
    assert!(TicketStatus::Consumed.is_terminal());
    assert!(!TicketStatus::Pending.is_terminal());
    assert!(!TicketStatus::Approved.is_terminal());
    assert!(TicketStatus::Approved.is_actionable());
    assert!(!TicketStatus::Pending.is_actionable());
    assert!(!TicketStatus::Denied.is_actionable());
}

// ── canonical hashing ──

#[test]
fn key_order_independent() {
    let a = canonical_hash(&obj(vec![("b", JsonValue::PosInt(1)), ("a", JsonValue::PosInt(2))])).unwrap();
    let b = canonical_hash(&obj(vec![("a", JsonValue::PosInt(2)), ("b", JsonValue::PosInt(1))])).unwrap();
    assert_eq!(a, b);
}

#[test]
fn key_order_independent_at_every_depth() {
    let inner_a = obj(vec![("y", JsonValue::PosInt(2)), ("x", JsonValue::Array(vec![obj(vec![("q", JsonValue::Null), ("p", JsonValue::Bool(true))])]))]);
    let inner_b = obj(vec![("x", JsonValue::Array(vec![obj(vec![("p", JsonValue::Bool(true)), ("q", JsonValue::Null)])])), ("y", JsonValue::PosInt(2))]);
    let a = canonical_hash(&obj(vec![("k", inner_a), ("j", JsonValue::Str("s".into()))])).unwrap();
    let b = canonical_hash(&obj(vec![("j", JsonValue::Str("s".into())), ("k", inner_b)])).unwrap();
    assert_eq!(a, b);
    assert_eq!(a.len(), 71);
    assert!(a.starts_with("sha256:"));
    assert!(a[7..].chars().all(|c| c.is_ascii_digit() || ('a'..='f').contains(&c)));
}

#[test]
fn floats_rejected() {
    let err = canonical_hash(&obj(vec![("x", JsonValue::Float("1.5".into()))])).unwrap_err();
    match err {
        CanonicalError::FloatNotAllowed { path } => assert_eq!(path, "x"),
        _ => panic!("wrong variant"),
    }
}

#[test]
fn nested_floats_rejected() {
    let v = obj(vec![("a", JsonValue::Array(vec![obj(vec![("b", JsonValue::Float("2.0".into()))])]))]);
    let err = canonical_hash(&v).unwrap_err();
    match err {
        CanonicalError::FloatNotAllowed { path } => assert_eq!(path, "a[0].b"),
        _ => panic!("wrong variant"),
    }
}

#[test]
fn null_preserved() {
    let with_null = canonical_hash(&obj(vec![("a", JsonValue::Null)])).unwrap();
    let empty = canonical_hash(&obj(vec![])).unwrap();
    assert_ne!(with_null, empty);
}

#[test]
fn prefix_present() {
    let h = canonical_hash(&obj(vec![("x", JsonValue::PosInt(1))])).unwrap();
    assert!(h.starts_with("sha256:"));
    let hex = &h["sha256:".len()..];
    assert_eq!(hex.len(), 64);
    assert!(hex.chars().all(|c| c.is_ascii_hexdigit() && !c.is_ascii_uppercase()));
}

fn sha256_hex(bytes: &[u8]) -> String {
    format!("sha256:{}", hex::encode(sha2::Sha256::digest(bytes)))
}

#[test]
fn canonical_hash_is_the_hash_of_the_jcs_text() {
    let v = obj(vec![
        ("zeta", JsonValue::PosInt(10)),
        ("alpha", obj(vec![("y", s("é")), ("x", JsonValue::NegInt(-1))])),
        ("mid", JsonValue::Array(vec![s("tab\there q\"\u{1}"), JsonValue::Bool(false), JsonValue::Null])),
    ]);
    let reference: serde_json::Value = serde_json::from_str(
        r#"{"zeta": 10, "alpha": {"y": "é", "x": -1}, "mid": ["tab\there q\"\u0001", false, null]}"#,
    )
    .unwrap();
    let text = serde_jcs::to_vec(&reference).unwrap();
    assert_eq!(
        String::from_utf8(text.clone()).unwrap(),
        "{\"alpha\":{\"x\":-1,\"y\":\"é\"},\"mid\":[\"tab\\there q\\\"\\u0001\",false,null],\"zeta\":10}"
    );
    assert_eq!(canonical_hash(&v).unwrap(), sha256_hex(&text));
}

#[test]
fn canonical_hash_keeps_the_last_duplicate_key() {
    let dup = canonical_hash(&obj(vec![("a", JsonValue::PosInt(1)), ("a", JsonValue::PosInt(2))])).unwrap();
    let last = canonical_hash(&obj(vec![("a", JsonValue::PosInt(2))])).unwrap();
    assert_eq!(dup, last);
}

#[test]
fn canonical_hash_is_sha256_of_the_text() {
    let h = canonical_hash(&obj(vec![])).unwrap();
    // SHA-256 of "{}".
    assert_eq!(h, "sha256:44136fa355b3678a1146ad16f7e8649e94fb4fc21fe77e8310c060f61caaff8a");
}

// ── correlation ──

fn sid(text: &str) -> SessionId {
    SessionId::for_test(text)
}

fn x(n: u64) -> JsonValue {
    obj(vec![("x", JsonValue::PosInt(n))])
}

#[test]
fn same_inputs_same_key() {
    let a = correlation_key(&sid("s1"), "act", &x(1)).unwrap();
    let b = correlation_key(&sid("s1"), "act", &x(1)).unwrap();
    assert_eq!(a, b);
}

#[test]
fn different_session_different_key() {
    let a = correlation_key(&sid("s1"), "act", &x(1)).unwrap();
    let b = correlation_key(&sid("s2"), "act", &x(1)).unwrap();
    assert_ne!(a, b);
}

#[test]
fn different_action_different_key() {
    let a = correlation_key(&sid("s1"), "act", &x(1)).unwrap();
    let b = correlation_key(&sid("s1"), "other", &x(1)).unwrap();
    assert_ne!(a, b);
}

#[test]
fn key_order_in_args_does_not_matter() {
    let a = correlation_key(&sid("s1"), "act", &obj(vec![("a", JsonValue::PosInt(1)), ("b", JsonValue::PosInt(2))]))
        .unwrap();
    let b = correlation_key(&sid("s1"), "act", &obj(vec![("b", JsonValue::PosInt(2)), ("a", JsonValue::PosInt(1))]))
        .unwrap();
    assert_eq!(a, b);
}

#[test]
fn correlation_key_rejects_floats() {
    let err = correlation_key(&sid("s1"), "act", &obj(vec![("f", JsonValue::Float("1e3".into()))])).unwrap_err();
    assert!(matches!(err, CanonicalError::FloatNotAllowed { path } if path == "f"));
}

// ── gateway ──

fn approver() -> ApproverIdentity {
    ApproverIdentity { kind: ApproverKind::LocalKey { key_id: "k1".into() }, roles: vec!["campaign_owner".into()] }
}

fn harness() -> ApprovalGateway {
    ApprovalGateway::new(InMemoryTicketStore::new(), InMemorySessionStore::new(), InMemoryInbox::new(), vec![0xABu8; 32])
}

fn make_session(gw: &mut ApprovalGateway) -> SessionId {
    gw.sessions.create_root("orchestrator".into(), Principal("anon".into()), None).unwrap()
}

fn req(sid: SessionId, args: JsonValue) -> ApprovalRequest {
    ApprovalRequest {
        action_kind: "doc.publish_live".into(),
        args,
        reason: "go live".into(),
        hint: None,
        requester: sid,
        ttl: 60 * SEC,
        metadata: obj(vec![]),
    }
}

#[test]
fn request_creates_pending_ticket_with_args_hash() {
    let mut gw = harness();
    let sid = make_session(&mut gw);
    let t = gw.request(req(sid, x(1)), 1000).unwrap();
    assert_eq!(t.status, TicketStatus::Pending);
    assert!(t.args_hash.starts_with("sha256:"));
    assert_eq!(t.expires_at, 1000 + 60 * SEC);
    assert!(t.id.0.starts_with("tk_"));
    assert_eq!(t.id.0.len(), 19);
}

#[test]
fn request_idempotent_via_correlation() {
    let mut gw = harness();
    let sid = make_session(&mut gw);
    let t1 = gw.request(req(sid.clone(), x(1)), 0).unwrap();
    let t2 = gw.request(req(sid, x(1)), 5).unwrap();
    assert_eq!(t1.id, t2.id);
    assert_eq!(gw.tickets.list_all().unwrap().len(), 1);
}

#[test]
fn request_with_taken_id_is_refused() {
    let mut gw = harness();
    let sid = make_session(&mut gw);
    gw.request_with_id(req(sid.clone(), x(1)), TicketId("tk_0".into()), 0).unwrap();
    let err = gw.request_with_id(req(sid, x(2)), TicketId("tk_0".into()), 0).unwrap_err();
    assert!(matches!(err, GatewayError::Store(_)));
}

#[test]
fn request_rejects_float_args() {
    let mut gw = harness();
    let sid = make_session(&mut gw);
    let err = gw.request(req(sid, obj(vec![("x", JsonValue::Float("1.5".into()))])), 0).unwrap_err();
    assert!(matches!(err, GatewayError::Canonical(CanonicalError::FloatNotAllowed { .. })));
}

#[test]
fn decide_records_decision_and_emits_inbox() {
    let mut gw = harness();
    let sid = make_session(&mut gw);
    let t = gw.request(req(sid.clone(), x(1)), 0).unwrap();
    gw.decide_local(&t.id, ApprovalOutcome::Approved, approver(), 7).unwrap();
    let stored = gw.tickets.get(&t.id).unwrap().unwrap();
    assert_eq!(stored.status, TicketStatus::Approved);
    assert!(stored.decision.is_some());
    assert_eq!(stored.decided_at, Some(7));
    let drained = gw.inbox.drain(&sid).unwrap();
    assert_eq!(drained.len(), 1);
    assert!(matches!(&drained[0], SystemMsg::ApprovalDecided { decided_at: 7, .. }));
}

#[test]
fn decide_resolves_session_wait_approval() {
    let mut gw = harness();
    let sid = make_session(&mut gw);
    let t = gw.request(req(sid.clone(), x(1)), 0).unwrap();
    gw.sessions.add_wait(&sid, Wait::Approval(t.id.clone())).unwrap();
    gw.decide_local(&t.id, ApprovalOutcome::Approved, approver(), 1).unwrap();
    let waits = gw.sessions.waits(&sid).unwrap();
    assert!(!waits.iter().any(|w| w.same_as(&Wait::Approval(t.id.clone()))));
}

#[test]
fn decide_on_non_pending_returns_already_decided() {
    let mut gw = harness();
    let sid = make_session(&mut gw);
    let t = gw.request(req(sid, x(1)), 0).unwrap();
    gw.decide_local(&t.id, ApprovalOutcome::Approved, approver(), 1).unwrap();
    let err = gw.decide_local(&t.id, ApprovalOutcome::Approved, approver(), 2).unwrap_err();
    assert!(matches!(err, GatewayError::AlreadyDecided { current_status: TicketStatus::Approved }));
}

#[test]
fn decide_with_forged_signature_is_refused() {
    let mut gw = harness();
    let sid = make_session(&mut gw);
    let t = gw.request(req(sid, x(1)), 0).unwrap();
    let forged = sign(&[0x11u8; 32], &t.id, &t.args_hash, &ApprovalOutcome::Approved).unwrap();
    let err = gw.decide(&t.id, ApprovalOutcome::Approved, approver(), forged, 1).unwrap_err();
    assert!(matches!(err, GatewayError::BadSignature));
    assert_eq!(gw.tickets.get(&t.id).unwrap().unwrap().status, TicketStatus::Pending);
}

#[test]
fn decide_unknown_ticket_is_not_found() {
    let mut gw = harness();
    let err = gw.decide_local(&TicketId("tk_none".into()), ApprovalOutcome::Approved, approver(), 1).unwrap_err();
    assert!(matches!(err, GatewayError::NotFound));
}

#[test]
fn denial_records_reason_and_never_passes() {
    let mut gw = harness();
    let sid = make_session(&mut gw);
    let t = gw.request(req(sid.clone(), x(1)), 0).unwrap();
    gw.decide_local(&t.id, ApprovalOutcome::Denied { reason: "no".into() }, approver(), 1).unwrap();
    let stored = gw.tickets.get(&t.id).unwrap().unwrap();
    assert_eq!(stored.status, TicketStatus::Denied);
    assert_eq!(stored.decision.unwrap().reason.as_deref(), Some("no"));
    let err = gw.gate_call(&t.id, &sid, &x(1), 2).err().unwrap();
    assert!(matches!(err, GatewayError::NotApproved));
}

#[test]
fn gate_call_rejects_when_pending() {
    let mut gw = harness();
    let sid = make_session(&mut gw);
    let t = gw.request(req(sid.clone(), x(1)), 0).unwrap();
    let err = gw.gate_call(&t.id, &sid, &x(1), 1).err().unwrap();
    assert!(matches!(err, GatewayError::NotApproved));
}

#[test]
fn gate_call_rejects_when_args_drift() {
    let mut gw = harness();
    let sid = make_session(&mut gw);
    let t = gw.request(req(sid.clone(), x(1)), 0).unwrap();
    gw.decide_local(&t.id, ApprovalOutcome::Approved, approver(), 1).unwrap();
    let err = gw.gate_call(&t.id, &sid, &x(2), 2).err().unwrap();
    assert!(matches!(err, GatewayError::ArgsDrift));
}

#[test]
fn gate_call_rejects_when_expired() {
    let mut gw = harness();
    let sid = make_session(&mut gw);
    let t = gw.request(req(sid.clone(), x(1)), 0).unwrap();
    gw.decide_local(&t.id, ApprovalOutcome::Approved, approver(), 1).unwrap();
    let err = gw.gate_call(&t.id, &sid, &x(1), 3600 * SEC).err().unwrap();
    assert!(matches!(err, GatewayError::Expired));
}

#[test]
fn gate_call_rejects_when_session_mismatch() {
    let mut gw = harness();
    let sid = make_session(&mut gw);
    let other = make_session(&mut gw);
    let t = gw.request(req(sid, x(1)), 0).unwrap();
    gw.decide_local(&t.id, ApprovalOutcome::Approved, approver(), 1).unwrap();
    let err = gw.gate_call(&t.id, &other, &x(1), 2).err().unwrap();
    assert!(matches!(err, GatewayError::SessionMismatch));
}

#[test]
fn gate_call_rejects_when_signature_invalid() {
    let mut gw = harness();
    let sid = make_session(&mut gw);
    let t = gw.request(req(sid.clone(), x(1)), 0).unwrap();
    gw.decide_local(&t.id, ApprovalOutcome::Approved, approver(), 1).unwrap();
    let stored = gw.tickets.get(&t.id).unwrap().unwrap();
    let mut bad = stored.decision.clone().unwrap();
    bad.signature[0] ^= 0xFF;
    gw.tickets.record_decision(&t.id, bad, 1).unwrap();
    let err = gw.gate_call(&t.id, &sid, &x(1), 2).err().unwrap();
    assert!(matches!(err, GatewayError::BadSignature));
}

#[test]
fn gate_call_consumes_atomically() {
    let mut gw = harness();
    let sid = make_session(&mut gw);
    let t = gw.request(req(sid.clone(), x(1)), 0).unwrap();
    gw.decide_local(&t.id, ApprovalOutcome::Approved, approver(), 1).unwrap();
    let ok = gw.gate_call(&t.id, &sid, &x(1), 2).unwrap();
    assert_eq!(ok.ticket.status, TicketStatus::Approved);
    assert_eq!(gw.tickets.get(&t.id).unwrap().unwrap().status, TicketStatus::Consumed);
    let err = gw.gate_call(&t.id, &sid, &x(1), 3).err().unwrap();
    assert!(matches!(err, GatewayError::Consumed));
}

#[test]
fn gate_call_unknown_ticket_is_not_found() {
    let mut gw = harness();
    let sid = make_session(&mut gw);
    let err = gw.gate_call(&TicketId("tk_x".into()), &sid, &x(1), 0).err().unwrap();
    assert!(matches!(err, GatewayError::NotFound));
}

#[test]
fn gate_call_accepts_reordered_args() {
    let mut gw = harness();
    let sid = make_session(&mut gw);
    let args = obj(vec![("a", JsonValue::PosInt(1)), ("b", s("z"))]);
    let t = gw.request(req(sid.clone(), args), 0).unwrap();
    gw.decide_local(&t.id, ApprovalOutcome::Approved, approver(), 1).unwrap();
    let reordered = obj(vec![("b", s("z")), ("a", JsonValue::PosInt(1))]);
    assert!(gw.gate_call(&t.id, &sid, &reordered, 2).is_ok());
}

#[test]
fn default_ids_have_the_tk_hex_shape() {
    let a = default_id_gen();
    assert!(a.0.starts_with("tk_"));
    assert_eq!(a.0.len(), 19);
    assert!(a.0[3..].chars().all(|c| c.is_ascii_hexdigit() && !c.is_ascii_uppercase()));
}

fn mk_ticket(id: &str, sid_text: &str, status: TicketStatus, expires_at: u64) -> Ticket {
    Ticket {
        id: TicketId(id.into()),
        session_id: SessionId::for_test(sid_text),
        action_kind: "act".into(),
        args: obj(vec![]),
        args_hash: "sha256:00".into(),
        reason: "r".into(),
        hint: None,
        status,
        decision: None,
        created_at: 0,
        expires_at,
        decided_at: None,
        consumed_at: None,
    }
}

// ── orphan sweep ──

#[test]
fn orphan_sweep_marks_pending_tickets_orphaned_when_session_abandoned() {
    let mut store = InMemoryTicketStore::new();
    let sid = SessionId::for_test("s1");
    store.create(mk_ticket("t1", "s1", TicketStatus::Pending, 0), "k1").unwrap();
    store.create(mk_ticket("t2", "s1", TicketStatus::Pending, 0), "k2").unwrap();
    let count = sweep_orphans(&mut store, &sid).unwrap();
    assert_eq!(count, 2);
    for t in store.list_by_session(&sid).unwrap() {
        assert!(matches!(t.status, TicketStatus::Orphaned));
    }
}

#[test]
fn orphan_sweep_leaves_approved_tickets_alone() {
    let mut store = InMemoryTicketStore::new();
    let sid = SessionId::for_test("s1");
    store.create(mk_ticket("t1", "s1", TicketStatus::Approved, 0), "k1").unwrap();
    store.create(mk_ticket("t2", "s1", TicketStatus::Pending, 0), "k2").unwrap();
    let count = sweep_orphans(&mut store, &sid).unwrap();
    assert_eq!(count, 1);
    let listed = store.list_by_session(&sid).unwrap();
    let approved = listed.iter().find(|t| t.id.0 == "t1").unwrap();
    assert!(matches!(approved.status, TicketStatus::Approved));
    let orphaned = listed.iter().find(|t| t.id.0 == "t2").unwrap();
    assert!(matches!(orphaned.status, TicketStatus::Orphaned));
}

#[test]
fn orphan_sweep_emits_no_inbox_message() {
    let mut store = InMemoryTicketStore::new();
    let sid = SessionId::for_test("s1");
    store.create(mk_ticket("t1", "s1", TicketStatus::Pending, 0), "k1").unwrap();
    assert_eq!(sweep_orphans(&mut store, &sid).unwrap(), 1);
}

#[test]
fn orphan_sweep_ignores_other_sessions() {
    let mut store = InMemoryTicketStore::new();
    store.create(mk_ticket("t1", "s2", TicketStatus::Pending, 0), "k1").unwrap();
    assert_eq!(sweep_orphans(&mut store, &SessionId::for_test("s1")).unwrap(), 0);
    assert_eq!(store.get(&TicketId("t1".into())).unwrap().unwrap().status, TicketStatus::Pending);
}

// ── expiry sweep ──

#[test]
fn expiry_sweep_transitions_pending_to_expired_after_deadline() {
    let mut store = InMemoryTicketStore::new();
    let mut inbox = InMemoryInbox::new();
    let now = 10 * SEC;
    store.create(mk_ticket("t1", "s1", TicketStatus::Pending, now - SEC), "k1").unwrap();
    store.create(mk_ticket("t2", "s1", TicketStatus::Pending, now + SEC), "k2").unwrap();
    store.create(mk_ticket("t3", "s1", TicketStatus::Approved, now - SEC), "k3").unwrap();
    let count = sweep_expired(&mut store, &mut inbox, now).unwrap();
    assert_eq!(count, 1);
    let all = store.list_all().unwrap();
    assert_eq!(all[0].status, TicketStatus::Expired);
    assert_eq!(all[1].status, TicketStatus::Pending);
    assert_eq!(all[2].status, TicketStatus::Approved);
    let msgs = inbox.drain(&SessionId::for_test("s1")).unwrap();
    assert_eq!(msgs.len(), 1);
    match &msgs[0] {
        SystemMsg::ApprovalDecided { ticket_id, decision, approver, decided_at, .. } => {
            assert_eq!(ticket_id.0, "t1");
            assert_eq!(*decision, ApprovalOutcome::Expired);
            assert_eq!(approver.kind, ApproverKind::LocalKey { key_id: "system".into() });
            assert!(approver.roles.is_empty());
            assert_eq!(*decided_at, now);
        },
        _ => panic!("unexpected message"),
    }
}

#[test]
fn expiry_sweep_expires_exactly_at_the_deadline() {
    let mut store = InMemoryTicketStore::new();
    let mut inbox = InMemoryInbox::new();
    store.create(mk_ticket("t1", "s1", TicketStatus::Pending, 5), "k1").unwrap();
    assert_eq!(sweep_expired(&mut store, &mut inbox, 5).unwrap(), 1);
}

// ── ttl ──

#[test]
fn override_wins() {
    let mut cfg = TtlConfig { default_ttl: Some(600 * SEC), overrides: Vec::new() };
    cfg.overrides.push(("act".into(), 1800 * SEC));
    assert_eq!(resolve_ttl(&cfg, "act"), 1800 * SEC);
}

#[test]
fn default_when_no_override() {
    let cfg = TtlConfig { default_ttl: Some(600 * SEC), overrides: Vec::new() };
    assert_eq!(resolve_ttl(&cfg, "act"), 600 * SEC);
}

#[test]
fn fallback_when_neither() {
    let cfg = TtlConfig::default();
    assert_eq!(resolve_ttl(&cfg, "act"), FALLBACK_TTL);
    assert_eq!(FALLBACK_TTL, 600 * SEC);
}

#[test]
fn capped_by_session_deadline() {
    let now = 1000 * SEC;
    let dl = now + 300 * SEC;
    let capped = cap_by_session_deadline(now, 1800 * SEC, Some(dl));
    assert!(capped <= 300 * SEC);
    assert!(capped >= 299 * SEC);
}

#[test]
fn no_deadline_passthrough() {
    assert_eq!(cap_by_session_deadline(1000 * SEC, 60 * SEC, None), 60 * SEC);
}

#[test]
fn past_deadline_zero() {
    let now = 1000 * SEC;
    assert_eq!(cap_by_session_deadline(now, 60 * SEC, Some(now - SEC)), 0);
}

#[test]
fn later_override_for_the_same_action_wins() {
    let cfg = TtlConfig { default_ttl: None, overrides: vec![("a".into(), 1), ("a".into(), 2)] };
    assert_eq!(resolve_ttl(&cfg, "a"), 2);
}

// ── the interface's decisions ──

#[test]
fn glue_approve_decides_under_local_identity() {
    let mut gw = harness();
    let sid = make_session(&mut gw);
    let t = gw.request(req(sid, x(1)), 0).unwrap();
    let roles = vec!["campaign_owner".to_string()];
    clawdia::tui::runtime_glue::approve(&mut gw, &t.id, clawdia::tui::keymap::ApprovalChoice::Approve, &"laptop".to_string(), &roles, 3)
        .unwrap();
    let stored = gw.tickets.get(&t.id).unwrap().unwrap();
    assert_eq!(stored.status, TicketStatus::Approved);
    let d = stored.decision.unwrap();
    assert!(matches!(&d.approver.kind, ApproverKind::LocalKey { key_id } if key_id == "laptop"));
    assert_eq!(d.approver.roles, roles);
}

#[test]
fn glue_skip_leaves_ticket_pending_and_deny_records_reason() {
    let mut gw = harness();
    let sid = make_session(&mut gw);
    let t = gw.request(req(sid, x(1)), 0).unwrap();
    let roles = vec![];
    clawdia::tui::runtime_glue::approve(&mut gw, &t.id, clawdia::tui::keymap::ApprovalChoice::Skip, &"k".to_string(), &roles, 1)
        .unwrap();
    assert_eq!(gw.tickets.get(&t.id).unwrap().unwrap().status, TicketStatus::Pending);
    clawdia::tui::runtime_glue::approve(
        &mut gw,
        &t.id,
        clawdia::tui::keymap::ApprovalChoice::Deny { reason: "no".into() },
        &"k".to_string(),
        &roles,
        2,
    )
    .unwrap();
    let stored = gw.tickets.get(&t.id).unwrap().unwrap();
    assert_eq!(stored.status, TicketStatus::Denied);
    assert_eq!(stored.decision.unwrap().reason, Some("no".to_string()));
    let err = clawdia::tui::runtime_glue::approve(
        &mut gw,
        &t.id,
        clawdia::tui::keymap::ApprovalChoice::Approve,
        &"k".to_string(),
        &roles,
        3,
    )
    .unwrap_err();
    assert!(matches!(err, GatewayError::AlreadyDecided { current_status: TicketStatus::Denied }));
}

#[test]
fn hex_is_two_lowercase_digits_per_byte() {
    assert_eq!(clawdia::digest::hex_encode(&[0x00, 0xff, 0x1a, 0x09]), "00ff1a09");
    assert_eq!(clawdia::digest::hex_encode(&[]), "");
}
