//! Agent-facing tools for the approval lifecycle.
//!
//! Each tool that acts for a session carries the calling session's id from
//! construction, so an agent cannot act for another session by passing a
//! forged id. The model-facing definitions (names, descriptions, argument
//! schemas) are registered by the agent host; here is what each call does.

use vstd::prelude::*;
use crate::approvals::gateway::{
    ApprovalGateway, GatewayError, new_ticket, stored_ticket,
};
use crate::approvals::canonical::{canonical_hash_spec, float_path, CanonicalError};
use crate::approvals::correlation::correlation_key_spec;
use crate::approvals::types::{ApprovalRequest, Ticket, TicketId, TicketStatus, TicketView};
use crate::json::{JsonValue, JsonView, clone_json};
use crate::persistence::tickets::{existing_for, session_tickets};
use crate::sessions::SessionId;

verus! {

/// Why an approval tool call failed.
#[derive(Debug)]
pub enum ApprovalToolError {
    Gateway(GatewayError),
    NotFound,
}

/// The name a status is shown with.
pub open spec fn status_text(s: TicketStatus) -> Seq<char> {
    match s {
        TicketStatus::Pending => "pending"@,
        TicketStatus::Approved => "approved"@,
        TicketStatus::Denied => "denied"@,
        TicketStatus::Expired => "expired"@,
        TicketStatus::Orphaned => "orphaned"@,
        TicketStatus::Consumed => "consumed"@,
    }
}

pub fn status_str(s: TicketStatus) -> (res: &'static str)
    ensures
        res@ == status_text(s),
{
    match s {
        TicketStatus::Pending => "pending",
        TicketStatus::Approved => "approved",
        TicketStatus::Denied => "denied",
        TicketStatus::Expired => "expired",
        TicketStatus::Orphaned => "orphaned",
        TicketStatus::Consumed => "consumed",
    }
}

/// Ticket lifetime when the request names none, in seconds.
pub const DEFAULT_TTL_SECS: u64 = 600;

/// Nanoseconds in a second.
pub const NANOS_PER_SEC: u64 = 1_000_000_000;

/// The lifetime a request asks for, in nanoseconds.
pub open spec fn requested_ttl(ttl_seconds: Option<u64>) -> int {
    match ttl_seconds {
        Some(s) => s * NANOS_PER_SEC,
        None => DEFAULT_TTL_SECS * NANOS_PER_SEC,
    }
}

/// Arguments of `approval_request`.
#[derive(Debug)]
pub struct ApprovalRequestArgs {
    pub action_kind: String,
    pub args: JsonValue,
    pub reason: String,
    pub hint: Option<String>,
    /// Lifetime of the ticket in seconds; the default when absent.
    pub ttl_seconds: Option<u64>,
}

#[derive(Debug)]
pub struct ApprovalRequestResult {
    pub ticket_id: String,
    pub status: String,
    pub args_hash: String,
}

/// `approval_request`, acting for the session it was built for.
pub struct ApprovalRequestTool {
    pub caller_session_id: SessionId,
}

impl ApprovalRequestTool {
    /// Opens (or finds) the ticket for the caller's action and arguments.
    pub fn call(&self, gateway: &mut ApprovalGateway, args: ApprovalRequestArgs, now: u64) -> (res: Result<
        ApprovalRequestResult,
        ApprovalToolError,
    >)
        requires
            old(gateway).wf(),
            now + requested_ttl(args.ttl_seconds) <= u64::MAX,
        ensures
            final(gateway).wf(),
            final(gateway).sessions == old(gateway).sessions,
            final(gateway).inbox == old(gateway).inbox,
            match correlation_key_spec(self.caller_session_id@, args.action_kind@, args.args@) {
                None => final(gateway).tickets == old(gateway).tickets && (res matches Err(
                    ApprovalToolError::Gateway(GatewayError::Canonical(CanonicalError::FloatNotAllowed { path })),
                ) && float_path(args.args@, Seq::empty()) == Some(path@)),
                Some(k) => match existing_for(old(gateway).tickets.tickets(), old(gateway).tickets.correlations(), k) {
                    Some(t) => final(gateway).tickets == old(gateway).tickets && (res matches Ok(r) && r.ticket_id@
                        == t.id && r.status@ == status_text(t.status) && r.args_hash@ == t.args_hash),
                    None => match res {
                        Ok(r) => {
                            let t = new_ticket(
                                self.caller_session_id@,
                                args.action_kind@,
                                args.args@,
                                args.reason@,
                                match args.hint {
                                    Some(h) => Some(h@),
                                    None => None,
                                },
                                requested_ttl(args.ttl_seconds) as u64,
                                r.ticket_id@,
                                canonical_hash_spec(args.args@)->Some_0,
                                now,
                            );
                            &&& r.status@ == "pending"@
                            &&& r.args_hash@ == canonical_hash_spec(args.args@)->Some_0
                            &&& final(gateway).tickets.tickets() == old(gateway).tickets.tickets().push(t)
                            &&& final(gateway).tickets.correlations() == old(gateway).tickets.correlations().push(
                                (k, r.ticket_id@),
                            )
                        },
                        Err(ApprovalToolError::Gateway(GatewayError::Store(_))) => final(gateway).tickets
                            == old(gateway).tickets,
                        Err(_) => false,
                    },
                },
            },
    {
        let secs = match args.ttl_seconds {
            Some(s) => s,
            None => DEFAULT_TTL_SECS,
        };
        let ttl = secs * NANOS_PER_SEC;
        let req = ApprovalRequest {
            action_kind: args.action_kind,
            args: args.args,
            reason: args.reason,
            hint: args.hint,
            requester: self.caller_session_id.clone(),
            ttl,
            metadata: JsonValue::Null,
        };
        match gateway.request(req, now) {
            Ok(ticket) => Ok(ApprovalRequestResult {
                ticket_id: ticket.id.0,
                status: status_str(ticket.status).to_owned(),
                args_hash: ticket.args_hash,
            }),
            Err(e) => Err(ApprovalToolError::Gateway(e)),
        }
    }
}

/// Arguments of `approval_status`.
#[derive(Debug)]
pub struct ApprovalStatusArgs {
    pub ticket_id: String,
}

#[derive(Debug)]
pub struct ApprovalStatusResult {
    pub ticket_id: String,
    pub status: String,
}

/// `approval_status`.
pub struct ApprovalStatusTool {}

impl ApprovalStatusTool {
    /// The lifecycle status of a ticket.
    pub fn call(&self, gateway: &ApprovalGateway, args: ApprovalStatusArgs) -> (res: Result<
        ApprovalStatusResult,
        ApprovalToolError,
    >)
        requires
            gateway.wf(),
        ensures
            match stored_ticket(gateway.tickets.tickets(), args.ticket_id@) {
                Some(t) => res matches Ok(r) && r.ticket_id@ == t.id && r.status@ == status_text(t.status),
                None => res matches Err(ApprovalToolError::NotFound),
            },
    {
        let id = TicketId(args.ticket_id);
        let ticket = match gateway.tickets.get(&id) {
            Ok(Some(t)) => t,
            Ok(None) => {
                return Err(ApprovalToolError::NotFound);
            },
            Err(e) => {
                return Err(ApprovalToolError::Gateway(GatewayError::Store(e)));
            },
        };
        Ok(ApprovalStatusResult { ticket_id: ticket.id.0, status: status_str(ticket.status).to_owned() })
    }
}

/// Arguments of `approval_describe`.
#[derive(Debug)]
pub struct ApprovalDescribeArgs {
    pub ticket_id: String,
}

/// The public view of a ticket: no signature material.
#[derive(Debug)]
pub struct ApprovalDescribeResult {
    pub ticket_id: String,
    pub session_id: String,
    pub action_kind: String,
    pub args: JsonValue,
    pub args_hash: String,
    pub reason: String,
    pub hint: Option<String>,
    pub status: String,
    pub denial_reason: Option<String>,
}

/// `approval_describe`.
pub struct ApprovalDescribeTool {}

/// The denial reason recorded on a ticket, if any.
pub open spec fn denial_reason_of(t: TicketView) -> Option<String> {
    match t.decision {
        Some(d) => d.2,
        None => None,
    }
}

impl ApprovalDescribeTool {
    /// The public view of a ticket.
    pub fn call(&self, gateway: &ApprovalGateway, args: ApprovalDescribeArgs) -> (res: Result<
        ApprovalDescribeResult,
        ApprovalToolError,
    >)
        requires
            gateway.wf(),
        ensures
            match stored_ticket(gateway.tickets.tickets(), args.ticket_id@) {
                Some(t) => res matches Ok(r) && {
                    &&& r.ticket_id@ == t.id
                    &&& r.session_id@ == t.session_id
                    &&& r.action_kind@ == t.action_kind
                    &&& r.args@ == t.args
                    &&& r.args_hash@ == t.args_hash
                    &&& r.reason@ == t.reason
                    &&& (match r.hint {
                        Some(h) => t.hint == Some(h@),
                        None => t.hint is None,
                    })
                    &&& r.status@ == status_text(t.status)
                    &&& r.denial_reason == denial_reason_of(t)
                },
                None => res matches Err(ApprovalToolError::NotFound),
            },
    {
        let id = TicketId(args.ticket_id);
        let ticket = match gateway.tickets.get(&id) {
            Ok(Some(t)) => t,
            Ok(None) => {
                return Err(ApprovalToolError::NotFound);
            },
            Err(e) => {
                return Err(ApprovalToolError::Gateway(GatewayError::Store(e)));
            },
        };
        let denial_reason = match &ticket.decision {
            Some(d) => match &d.reason {
                Some(r) => Some(r.clone()),
                None => None,
            },
            None => None,
        };
        Ok(ApprovalDescribeResult {
            ticket_id: ticket.id.0,
            session_id: ticket.session_id.into_string(),
            action_kind: ticket.action_kind,
            args: ticket.args,
            args_hash: ticket.args_hash,
            reason: ticket.reason,
            hint: ticket.hint,
            status: status_str(ticket.status).to_owned(),
            denial_reason,
        })
    }
}

/// Arguments of `approval_list_mine`: none.
#[derive(Debug)]
pub struct ApprovalListMineArgs {}

#[derive(Debug)]
pub struct ApprovalListMineEntry {
    pub ticket_id: String,
    pub action_kind: String,
    pub status: String,
}

#[derive(Debug)]
pub struct ApprovalListMineResult {
    pub tickets: Vec<ApprovalListMineEntry>,
}

/// `approval_list_mine`, acting for the session it was built for.
pub struct ApprovalListMineTool {
    pub caller_session_id: SessionId,
}

/// The entry a ticket is listed with.
pub open spec fn entry_of(t: TicketView) -> (Seq<char>, Seq<char>, Seq<char>) {
    (t.id, t.action_kind, status_text(t.status))
}

impl ApprovalListMineTool {
    /// The caller's tickets, in creation order.
    pub fn call(&self, gateway: &ApprovalGateway, args: ApprovalListMineArgs) -> (res: Result<
        ApprovalListMineResult,
        ApprovalToolError,
    >)
        ensures
            res matches Ok(r) && Seq::new(
                r.tickets@.len(),
                |i: int| (r.tickets@[i].ticket_id@, r.tickets@[i].action_kind@, r.tickets@[i].status@),
            ) == {
                let mine = session_tickets(gateway.tickets.tickets(), self.caller_session_id@);
                Seq::new(mine.len(), |i: int| entry_of(mine[i]))
            },
    {
        let listed = match gateway.tickets.list_by_session(&self.caller_session_id) {
            Ok(v) => v,
            Err(e) => {
                return Err(ApprovalToolError::Gateway(GatewayError::Store(e)));
            },
        };
        let ghost mine = session_tickets(gateway.tickets.tickets(), self.caller_session_id@);
        let mut out: Vec<ApprovalListMineEntry> = Vec::new();
        let mut i: usize = 0;
        while i < listed.len()
            invariant
                i <= listed@.len(),
                Seq::new(listed@.len(), |k: int| listed@[k]@) == mine,
                Seq::new(
                    out@.len(),
                    |k: int| (out@[k].ticket_id@, out@[k].action_kind@, out@[k].status@),
                ) == Seq::new(i as nat, |k: int| entry_of(mine[k])),
            decreases listed@.len() - i,
        {
            let ghost before = Seq::new(
                out@.len(),
                |k: int| (out@[k].ticket_id@, out@[k].action_kind@, out@[k].status@),
            );
            let t = &listed[i];
            let e = ApprovalListMineEntry {
                ticket_id: t.id.0.clone(),
                action_kind: t.action_kind.clone(),
                status: status_str(t.status).to_owned(),
            };
            proof {
                assert(listed@[i as int]@ == mine[i as int]);
            }
            out.push(e);
            proof {
                assert(Seq::new(
                    out@.len(),
                    |k: int| (out@[k].ticket_id@, out@[k].action_kind@, out@[k].status@),
                ) =~= before.push(entry_of(mine[i as int])));
                assert(Seq::new((i + 1) as nat, |k: int| entry_of(mine[k])) =~= Seq::new(
                    i as nat,
                    |k: int| entry_of(mine[k]),
                ).push(entry_of(mine[i as int])));
            }
            i = i + 1;
        }
        Ok(ApprovalListMineResult { tickets: out })
    }
}

} // verus!
