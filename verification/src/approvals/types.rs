//! Approval ticket identifier, lifecycle status and the ticket record.
//!
//! Instants and durations are nanoseconds on the runtime's clock.

use vstd::prelude::*;
use crate::approvals::outcome::{ApproverIdentity, ApproverKind, approver_view};
use crate::json::{JsonValue, JsonView, clone_json};
use crate::sessions::SessionId;

verus! {

/// Identifier of an approval ticket.
#[derive(Debug, PartialEq, Eq, Hash)]
pub struct TicketId(pub String);

impl View for TicketId {
    type V = Seq<char>;

    open spec fn view(&self) -> Seq<char> {
        self.0@
    }
}

impl Clone for TicketId {
    fn clone(&self) -> (res: Self)
        ensures
            res == *self,
    {
        TicketId(self.0.clone())
    }
}

/// Lifecycle of a ticket.
#[derive(Debug, Clone, Copy, PartialEq, Eq, Structural)]
pub enum TicketStatus {
    Pending,
    Approved,
    Denied,
    Expired,
    Orphaned,
    Consumed,
}

impl TicketStatus {
    /// Terminal-and-not-actionable. `Approved` is terminal-but-actionable
    /// until consumed, so it is intentionally not "terminal" here.
    pub fn is_terminal(self) -> (res: bool)
        ensures
            res <==> (self == TicketStatus::Denied || self == TicketStatus::Expired
                || self == TicketStatus::Orphaned || self == TicketStatus::Consumed),
    {
        match self {
            TicketStatus::Denied | TicketStatus::Expired | TicketStatus::Orphaned
            | TicketStatus::Consumed => true,
            _ => false,
        }
    }

    /// Only an approved ticket can be acted on.
    pub fn is_actionable(self) -> (res: bool)
        ensures
            res <==> self == TicketStatus::Approved,
    {
        match self {
            TicketStatus::Approved => true,
            _ => false,
        }
    }
}

/// A recorded decision: who decided, the signature over the decision, and
/// the denial reason if any.
#[derive(Debug)]
pub struct Decision {
    pub approver: ApproverIdentity,
    pub signature: Vec<u8>,
    pub reason: Option<String>,
}

/// The content of a decision.
pub open spec fn decision_view(d: Decision) -> ((ApproverKind, Seq<String>), Seq<u8>, Option<String>) {
    (approver_view(d.approver), d.signature@, d.reason)
}

impl Clone for Decision {
    fn clone(&self) -> (res: Self)
        ensures
            decision_view(res) == decision_view(*self),
    {
        let reason = match &self.reason {
            Some(r) => Some(r.clone()),
            None => None,
        };
        Decision { approver: self.approver.clone(), signature: self.signature.clone(), reason }
    }
}

/// An approval ticket.
#[derive(Debug)]
pub struct Ticket {
    pub id: TicketId,
    pub session_id: SessionId,
    pub action_kind: String,
    pub args: JsonValue,
    pub args_hash: String,
    pub reason: String,
    pub hint: Option<String>,
    pub status: TicketStatus,
    pub decision: Option<Decision>,
    pub created_at: u64,
    pub expires_at: u64,
    pub decided_at: Option<u64>,
    pub consumed_at: Option<u64>,
}

/// The content of a ticket, with every field taken by its view.
pub struct TicketView {
    pub id: Seq<char>,
    pub session_id: Seq<char>,
    pub action_kind: Seq<char>,
    pub args: JsonView,
    pub args_hash: Seq<char>,
    pub reason: Seq<char>,
    pub hint: Option<Seq<char>>,
    pub status: TicketStatus,
    pub decision: Option<((ApproverKind, Seq<String>), Seq<u8>, Option<String>)>,
    pub created_at: u64,
    pub expires_at: u64,
    pub decided_at: Option<u64>,
    pub consumed_at: Option<u64>,
}

impl View for Ticket {
    type V = TicketView;

    open spec fn view(&self) -> TicketView {
        TicketView {
            id: self.id@,
            session_id: self.session_id@,
            action_kind: self.action_kind@,
            args: self.args@,
            args_hash: self.args_hash@,
            reason: self.reason@,
            hint: match self.hint {
                Some(h) => Some(h@),
                None => None,
            },
            status: self.status,
            decision: match self.decision {
                Some(d) => Some(decision_view(d)),
                None => None,
            },
            created_at: self.created_at,
            expires_at: self.expires_at,
            decided_at: self.decided_at,
            consumed_at: self.consumed_at,
        }
    }
}

impl Clone for Ticket {
    fn clone(&self) -> (res: Self)
        ensures
            res@ == self@,
    {
        let hint = match &self.hint {
            Some(h) => Some(h.clone()),
            None => None,
        };
        let decision = match &self.decision {
            Some(d) => Some(d.clone()),
            None => None,
        };
        Ticket {
            id: self.id.clone(),
            session_id: self.session_id.clone(),
            action_kind: self.action_kind.clone(),
            args: clone_json(&self.args),
            args_hash: self.args_hash.clone(),
            reason: self.reason.clone(),
            hint,
            status: self.status,
            decision,
            created_at: self.created_at,
            expires_at: self.expires_at,
            decided_at: self.decided_at,
            consumed_at: self.consumed_at,
        }
    }
}

/// A request for human approval of a gated action.
#[derive(Debug)]
pub struct ApprovalRequest {
    pub action_kind: String,
    pub args: JsonValue,
    pub reason: String,
    pub hint: Option<String>,
    pub requester: SessionId,
    /// How long the ticket stays open, in nanoseconds.
    pub ttl: u64,
    pub metadata: JsonValue,
}

} // verus!
