use clawdia::approvals::gateway::{ApprovalGateway, GatewayError};
use clawdia::approvals::outcome::{ApprovalOutcome, ApproverIdentity, ApproverKind};
use clawdia::approvals::registry::{ActionRegistryError, InMemoryActionRegistry};
use clawdia::approvals::tools::{
    status_str, ApprovalDescribeArgs, ApprovalDescribeTool, ApprovalListMineArgs, ApprovalListMineTool,
    ApprovalRequestArgs, ApprovalRequestTool, ApprovalStatusArgs, ApprovalStatusTool, ApprovalToolError,
};
use clawdia::approvals::types::{TicketId, TicketStatus};
use clawdia::approvals::canonical::CanonicalError;
use clawdia::json::JsonValue;
use clawdia::persistence::memory::{InMemoryInbox, InMemorySessionStore};
use clawdia::persistence::tickets::InMemoryTicketStore;
use clawdia::sessions::{Principal, SessionId};

fn approver() -> ApproverIdentity {
    ApproverIdentity { kind: ApproverKind::LocalKey { key_id: "k1".into() }, roles: vec!["campaign_owner".into()] }
}

fn harness() -> (ApprovalGateway, SessionId, SessionId) {
    let mut sessions = InMemorySessionStore::new();
    let sid = sessions.create_root("orchestrator".into(), Principal("anon".into()), None).unwrap();
    let other = sessions.create_root("orchestrator".into(), Principal("anon".into()), None).unwrap();
    let gw = ApprovalGateway::new(InMemoryTicketStore::new(), sessions, InMemoryInbox::new(), vec![0xABu8; 32]);
    (gw, sid, other)
}

fn x(n: u64) -> JsonValue {
    JsonValue::Object(vec![("x".into(), JsonValue::PosInt(n))])
}

fn args(kind: &str, a: JsonValue, ttl: Option<u64>) -> ApprovalRequestArgs {
    ApprovalRequestArgs { action_kind: kind.into(), args: a, reason: "r".into(), hint: None, ttl_seconds: ttl }
}

#[test]
fn approval_request_returns_pending_ticket() {
    let (mut gw, sid, _) = harness();
    let tool = ApprovalRequestTool { caller_session_id: sid };
    let a = JsonValue::Object(vec![("campaign_id".into(), JsonValue::Str("c1".into()))]);
    let res = tool.call(&mut gw, args("doc.publish_live", a, Some(60)), 0).unwrap();
    assert_eq!(res.status, "pending");
    assert!(res.args_hash.starts_with("sha256:"));
    let t = gw.tickets.get(&TicketId(res.ticket_id)).unwrap().unwrap();
    assert_eq!(t.expires_at, 60_000_000_000);
}

#[test]
fn approval_request_uses_default_ttl() {
    let (mut gw, sid, _) = harness();
    let tool = ApprovalRequestTool { caller_session_id: sid };
    let res = tool.call(&mut gw, args("act", x(1), None), 5).unwrap();
    let t = gw.tickets.get(&TicketId(res.ticket_id)).unwrap().unwrap();
    assert_eq!(t.expires_at, 5 + 600_000_000_000);
}

#[test]
fn approval_request_rejects_floats_in_args() {
    let (mut gw, sid, _) = harness();
    let tool = ApprovalRequestTool { caller_session_id: sid };
    let a = JsonValue::Object(vec![("x".into(), JsonValue::Float("1.5".into()))]);
    let err = tool.call(&mut gw, args("act", a, None), 0).unwrap_err();
    assert!(matches!(
        err,
        ApprovalToolError::Gateway(GatewayError::Canonical(CanonicalError::FloatNotAllowed { ref path })) if path == "x"
    ));
}

#[test]
fn approval_status_returns_pending_then_approved() {
    let (mut gw, sid, _) = harness();
    let req = ApprovalRequestTool { caller_session_id: sid };
    let res = req.call(&mut gw, args("act", x(1), Some(60)), 0).unwrap();
    let status_tool = ApprovalStatusTool {};
    let s1 = status_tool.call(&gw, ApprovalStatusArgs { ticket_id: res.ticket_id.clone() }).unwrap();
    assert_eq!(s1.status, "pending");
    gw.decide_local(&TicketId(res.ticket_id.clone()), ApprovalOutcome::Approved, approver(), 1).unwrap();
    let s2 = status_tool.call(&gw, ApprovalStatusArgs { ticket_id: res.ticket_id }).unwrap();
    assert_eq!(s2.status, "approved");
}

#[test]
fn approval_status_unknown_ticket_is_not_found() {
    let (gw, _, _) = harness();
    let err = ApprovalStatusTool {}.call(&gw, ApprovalStatusArgs { ticket_id: "tk_x".into() }).unwrap_err();
    assert!(matches!(err, ApprovalToolError::NotFound));
}

#[test]
fn approval_describe_returns_public_view() {
    let (mut gw, sid, _) = harness();
    let req = ApprovalRequestTool { caller_session_id: sid.clone() };
    let mut a = args("act", x(1), Some(60));
    a.reason = "why".into();
    a.hint = Some("hint".into());
    let res = req.call(&mut gw, a, 0).unwrap();
    let d = ApprovalDescribeTool {}.call(&gw, ApprovalDescribeArgs { ticket_id: res.ticket_id }).unwrap();
    assert_eq!(d.action_kind, "act");
    assert_eq!(d.reason, "why");
    assert_eq!(d.hint.as_deref(), Some("hint"));
    assert_eq!(d.session_id, sid.into_string());
    assert_eq!(d.denial_reason, None);
    assert_eq!(d.args, x(1));
}

#[test]
fn approval_list_mine_filters_by_caller_session() {
    let (mut gw, sid, other) = harness();
    ApprovalRequestTool { caller_session_id: sid.clone() }.call(&mut gw, args("a1", x(1), None), 0).unwrap();
    ApprovalRequestTool { caller_session_id: other }.call(&mut gw, args("a2", x(2), None), 0).unwrap();
    let res = ApprovalListMineTool { caller_session_id: sid }.call(&gw, ApprovalListMineArgs {}).unwrap();
    assert_eq!(res.tickets.len(), 1);
    assert_eq!(res.tickets[0].action_kind, "a1");
    assert_eq!(res.tickets[0].status, "pending");
}

#[test]
fn status_names() {
    assert_eq!(status_str(TicketStatus::Pending), "pending");
    assert_eq!(status_str(TicketStatus::Orphaned), "orphaned");
    assert_eq!(status_str(TicketStatus::Consumed), "consumed");
}

#[test]
fn registry_dispatches_to_registered_handler() {
    let mut reg = InMemoryActionRegistry::new();
    let slot = reg.register("doc.publish_live".into());
    assert_eq!(reg.resolve("doc.publish_live").unwrap(), slot);
    assert_eq!(reg.register("doc.publish_live".into()), slot);
}

#[test]
fn registry_unknown_action_returns_error() {
    let reg = InMemoryActionRegistry::new();
    let err = reg.resolve("nope").unwrap_err();
    assert!(matches!(err, ActionRegistryError::Unknown(ref k) if k == "nope"));
}
