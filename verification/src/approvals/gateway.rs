//! Approval gateway: request, decide, and the runtime checkpoint.
//!
//! The runtime checkpoint is the integrity layer that runs before any policy
//! engine sees `context.approval`: the ticket must belong to the calling
//! session, be approved, carry the very arguments of the call, be unexpired,
//! and hold a valid signature over the approval. A ticket passes the checkpoint
//! at most once.
//!
//! Instants are nanoseconds on the runtime's clock, handed in by the caller.

use vstd::prelude::*;
use crate::approvals::canonical::{CanonicalError, canonical_hash, canonical_hash_spec, float_path};
use crate::approvals::correlation::{correlation_key, correlation_key_spec};
use crate::approvals::outcome::{ApprovalOutcome, ApproverIdentity, ApproverKind, approver_view};
use crate::approvals::signing::{SignError, sign, signature_spec, verify, verify_accepts};
use crate::approvals::types::{
    ApprovalRequest, Decision, Ticket, TicketId, TicketStatus, TicketView, decision_view,
};
use crate::digest::{hex_encode, random_bytes8, spec_hex_lower};
use crate::inbox::{SystemMsg, SystemMsgView};
use crate::persistence::SessionEvent;
use crate::persistence::memory::{
    InMemoryInbox, InMemorySessionStore, find_session, put_session, remove_wait_spec,
};
use crate::persistence::tickets::{
    InMemoryTicketStore, TicketStoreError, existing_for, lemma_ticket_index, lemma_ticket_index_unique, ticket_index,
};
use crate::sessions::{SessionError, SessionId, SessionView, Wait, WaitView};
use crate::text::push_char;

verus! {

/// Why a gateway operation failed.
#[derive(Debug)]
pub enum GatewayError {
    Canonical(CanonicalError),
    Store(TicketStoreError),
    Session(SessionError),
    NotApproved,
    AlreadyDecided { current_status: TicketStatus },
    Expired,
    Consumed,
    SessionMismatch,
    ArgsDrift,
    BadSignature,
    NotFound,
}

/// The ticket a successful checkpoint hands back; the caller executes with its
/// stored arguments.
#[derive(Debug)]
pub struct GateOk {
    pub ticket: Ticket,
}

/// The secret that approvals are signed with; its bytes never leave it.
pub struct SigningKey {
    bytes: Vec<u8>,
}

impl View for SigningKey {
    type V = Seq<u8>;

    closed spec fn view(&self) -> Seq<u8> {
        self.bytes@
    }
}

impl SigningKey {
    pub fn new(bytes: Vec<u8>) -> (res: Self)
        ensures
            res@ == bytes@,
    {
        SigningKey { bytes }
    }

    fn as_slice(&self) -> (res: &[u8])
        ensures
            res@ == self@,
    {
        self.bytes.as_slice()
    }
}

/// The request, decision and checkpoint service over the in-memory stores.
pub struct ApprovalGateway {
    pub tickets: InMemoryTicketStore,
    pub sessions: InMemorySessionStore,
    pub inbox: InMemoryInbox,
    pub hmac_key: SigningKey,
}

/// The ticket status a decision leads to.
pub open spec fn status_after(o: ApprovalOutcome) -> TicketStatus {
    match o {
        ApprovalOutcome::Approved => TicketStatus::Approved,
        ApprovalOutcome::Denied { .. } => TicketStatus::Denied,
        ApprovalOutcome::Expired => TicketStatus::Expired,
    }
}

/// The reason recorded with a decision: a denial's reason, else none.
pub open spec fn reason_of(o: ApprovalOutcome) -> Option<String> {
    match o {
        ApprovalOutcome::Denied { reason } => Some(reason),
        _ => None,
    }
}

/// A ticket after decision `o` by `approver`, signed `sig`, at `now`.
pub open spec fn decided_ticket(
    t: TicketView,
    o: ApprovalOutcome,
    approver: (ApproverKind, Seq<String>),
    sig: Seq<u8>,
    now: u64,
) -> TicketView {
    TicketView {
        status: status_after(o),
        decision: Some((approver, sig, reason_of(o))),
        decided_at: Some(now),
        ..t
    }
}

/// The inbox message that announces a decision.
pub open spec fn decided_message(
    id: Seq<char>,
    t: TicketView,
    o: ApprovalOutcome,
    approver: (ApproverKind, Seq<String>),
    now: u64,
) -> SystemMsgView {
    SystemMsgView::ApprovalDecided { ticket_id: id, action_kind: t.action_kind, decision: o, approver, decided_at: now }
}

/// Sessions after the wait `w` of session `sid` is resolved (no change for
/// an unknown session).
pub open spec fn sessions_after_resolve(ss: Seq<SessionView>, sid: Seq<char>, w: WaitView) -> Seq<SessionView> {
    match find_session(ss, sid) {
        Some(s) => put_session(ss, SessionView { waits: remove_wait_spec(s.waits, w), ..s }),
        None => ss,
    }
}

/// Session events after the wait of session `sid` is resolved.
pub open spec fn events_after_resolve(
    ss: Seq<SessionView>,
    ev: Seq<(Seq<char>, SessionEvent)>,
    sid: Seq<char>,
) -> Seq<(Seq<char>, SessionEvent)> {
    match find_session(ss, sid) {
        Some(_) => ev.push((sid, SessionEvent::WaitResolved)),
        None => ev,
    }
}

/// The ticket a fresh request creates.
pub open spec fn new_ticket(
    session: Seq<char>,
    action_kind: Seq<char>,
    args: crate::json::JsonView,
    reason: Seq<char>,
    hint: Option<Seq<char>>,
    ttl: u64,
    id: Seq<char>,
    args_hash: Seq<char>,
    now: u64,
) -> TicketView {
    TicketView {
        id,
        session_id: session,
        action_kind,
        args,
        args_hash,
        reason,
        hint,
        status: TicketStatus::Pending,
        decision: None,
        created_at: now,
        expires_at: (now + ttl) as u64,
        decided_at: None,
        consumed_at: None,
    }
}

/// What the runtime checkpoint decides, step by step.
#[derive(PartialEq, Eq, Structural)]
pub enum GateVerdict {
    Pass,
    NotFound,
    SessionMismatch,
    Consumed,
    Expired,
    NotApproved,
    FloatArgs,
    ArgsDrift,
    BadSignature,
}

/// The checkpoint's verdict on ticket `t` (as stored under `id`), for a call from
/// session `caller` with arguments `args` at time `now`, under `key`.
pub open spec fn gate_verdict(
    t: Option<TicketView>,
    key: Seq<u8>,
    id: Seq<char>,
    caller: Seq<char>,
    args: crate::json::JsonView,
    now: u64,
) -> GateVerdict {
    match t {
        None => GateVerdict::NotFound,
        Some(t) => if t.session_id != caller {
            GateVerdict::SessionMismatch
        } else if t.status == TicketStatus::Consumed {
            GateVerdict::Consumed
        } else if t.status == TicketStatus::Expired || t.status == TicketStatus::Orphaned {
            GateVerdict::Expired
        } else if t.status != TicketStatus::Approved {
            GateVerdict::NotApproved
        } else {
            match canonical_hash_spec(args) {
                None => GateVerdict::FloatArgs,
                Some(h) => if h != t.args_hash {
                    GateVerdict::ArgsDrift
                } else if now >= t.expires_at {
                    GateVerdict::Expired
                } else {
                    match t.decision {
                        None => GateVerdict::NotApproved,
                        Some(d) => if !verify_accepts(key, id, t.args_hash, ApprovalOutcome::Approved, d.1) {
                            GateVerdict::BadSignature
                        } else {
                            GateVerdict::Pass
                        },
                    }
                },
            }
        },
    }
}

/// The ticket stored under `id`, if any.
pub open spec fn stored_ticket(ts: Seq<TicketView>, id: Seq<char>) -> Option<TicketView> {
    match ticket_index(ts, id) {
        Some(i) => Some(ts[i]),
        None => None,
    }
}

/// A consumed ticket never passes the checkpoint again: its owner is told it was
/// consumed, anyone else that the session does not match.
pub proof fn lemma_gate_passes_at_most_once(
    t: TicketView,
    key: Seq<u8>,
    id: Seq<char>,
    caller: Seq<char>,
    args: crate::json::JsonView,
    now: u64,
)
    ensures
        gate_verdict(Some(TicketView { status: TicketStatus::Consumed, ..t }), key, id, caller, args, now) == (if caller
            != t.session_id {
            GateVerdict::SessionMismatch
        } else {
            GateVerdict::Consumed
        }),
{
}

/// A ticket passes the checkpoint only when it belongs to the caller, is
/// approved, carries the caller's arguments (by canonical hash), is
/// unexpired and holds a valid signature over the approval.
pub proof fn lemma_gate_pass_conditions(
    t: TicketView,
    key: Seq<u8>,
    id: Seq<char>,
    caller: Seq<char>,
    args: crate::json::JsonView,
    now: u64,
)
    requires
        gate_verdict(Some(t), key, id, caller, args, now) == GateVerdict::Pass,
    ensures
        t.session_id == caller,
        t.status == TicketStatus::Approved,
        canonical_hash_spec(args) == Some(t.args_hash),
        now < t.expires_at,
        t.decision is Some,
        verify_accepts(key, id, t.args_hash, ApprovalOutcome::Approved, t.decision->Some_0.1),
{
}

/// A decided ticket is no longer pending, so a second decision on it is
/// refused as already decided.
pub proof fn lemma_decided_not_pending(
    t: TicketView,
    o: ApprovalOutcome,
    approver: (ApproverKind, Seq<String>),
    sig: Seq<u8>,
    now: u64,
)
    ensures
        decided_ticket(t, o, approver, sig, now).status != TicketStatus::Pending,
{
}

/// A pending ticket approved with the gateway's own signature passes the
/// checkpoint for its owner, with the same arguments, before it expires.
pub proof fn lemma_local_approval_passes_gate(
    t: TicketView,
    key: Seq<u8>,
    id: Seq<char>,
    approver: (ApproverKind, Seq<String>),
    decided_at: u64,
    args: crate::json::JsonView,
    now: u64,
)
    requires
        canonical_hash_spec(args) == Some(t.args_hash),
        now < t.expires_at,
    ensures
        gate_verdict(
            Some(
                decided_ticket(
                    t,
                    ApprovalOutcome::Approved,
                    approver,
                    signature_spec(key, id, t.args_hash, ApprovalOutcome::Approved),
                    decided_at,
                ),
            ),
            key,
            id,
            t.session_id,
            args,
            now,
        ) == GateVerdict::Pass,
{
}

/// A denied ticket never passes the checkpoint.
pub proof fn lemma_denied_never_passes(
    t: TicketView,
    reason: String,
    approver: (ApproverKind, Seq<String>),
    sig: Seq<u8>,
    decided_at: u64,
    key: Seq<u8>,
    id: Seq<char>,
    caller: Seq<char>,
    args: crate::json::JsonView,
    now: u64,
)
    ensures
        gate_verdict(
            Some(decided_ticket(t, ApprovalOutcome::Denied { reason }, approver, sig, decided_at)),
            key,
            id,
            caller,
            args,
            now,
        ) != GateVerdict::Pass,
{
}

/// After a fresh request stores ticket `t` under correlation key `k`, the
/// same key leads back to `t`: repeating the request returns it.
pub proof fn lemma_request_idempotent(
    ts: Seq<TicketView>,
    cs: Seq<(Seq<char>, Seq<char>)>,
    k: Seq<char>,
    t: TicketView,
)
    ensures
        existing_for(ts.push(t), cs.push((k, t.id)), k) == Some(t),
{
    assert(ts.push(t).last() == t);
    assert(ticket_index(ts.push(t), t.id) == Some(ts.len() as int));
}

/// `tk_` followed by the lowercase hex of 8 random bytes.
pub fn default_id_gen() -> (res: TicketId)
    ensures
        exists|b: Seq<u8>| b.len() == 8 && #[trigger] res@ == seq!['t', 'k', '_'] + spec_hex_lower(b),
{
    let b = random_bytes8();
    let hex = hex_encode(b.as_slice());
    let mut s = String::new();
    push_char(&mut s, 't');
    push_char(&mut s, 'k');
    push_char(&mut s, '_');
    s.append(hex.as_str());
    proof {
        assert(s@ =~= seq!['t', 'k', '_'] + spec_hex_lower(b@));
    }
    TicketId(s)
}

/// What deciding ticket `id` with `outcome` under the gateway's own key
/// does: an unknown ticket is not found, a decided one is refused with its
/// status, and a pending one takes the signed decision, its session hears of
/// it and stops waiting for it.
pub open spec fn local_decision(
    pre: ApprovalGateway,
    post: ApprovalGateway,
    id: Seq<char>,
    outcome: ApprovalOutcome,
    approver: ApproverIdentity,
    now: u64,
    res: Result<(), GatewayError>,
) -> bool {
    match stored_ticket(pre.tickets.tickets(), id) {
        None => res matches Err(GatewayError::NotFound) && post == pre,
        Some(t) => if t.status != TicketStatus::Pending {
            res matches Err(GatewayError::AlreadyDecided { current_status }) && current_status == t.status
                && post == pre
        } else {
            let sig = signature_spec(pre.key(), id, t.args_hash, outcome);
            &&& res is Ok
            &&& post.tickets.tickets() == pre.tickets.tickets().update(
                ticket_index(pre.tickets.tickets(), id)->Some_0,
                decided_ticket(t, outcome, approver_view(approver), sig, now),
            )
            &&& post.tickets.correlations() == pre.tickets.correlations()
            &&& post.inbox.queue(t.session_id) == pre.inbox.queue(t.session_id).push(
                decided_message(id, t, outcome, approver_view(approver), now),
            )
            &&& forall|sid: Seq<char>| sid != t.session_id ==> #[trigger] post.inbox.queue(sid)
                == pre.inbox.queue(sid)
            &&& post.sessions.sessions() == sessions_after_resolve(
                pre.sessions.sessions(),
                t.session_id,
                WaitView::Approval(id),
            )
            &&& post.sessions.events() == events_after_resolve(
                pre.sessions.sessions(),
                pre.sessions.events(),
                t.session_id,
            )
        },
    }
}

impl ApprovalGateway {
    /// The key approvals are signed with.
    pub open spec fn key(&self) -> Seq<u8> {
        self.hmac_key@
    }

    pub open spec fn wf(&self) -> bool {
        &&& self.tickets.wf()
        &&& self.sessions.wf()
        &&& self.inbox.wf()
    }

    pub fn new(
        tickets: InMemoryTicketStore,
        sessions: InMemorySessionStore,
        inbox: InMemoryInbox,
        hmac_key: Vec<u8>,
    ) -> (res: Self)
        ensures
            res.tickets == tickets,
            res.sessions == sessions,
            res.inbox == inbox,
            res.key() == hmac_key@,
    {
        ApprovalGateway { tickets, sessions, inbox, hmac_key: SigningKey::new(hmac_key) }
    }

    /// Opens a ticket for `req` under identifier `id` at time `now`, or
    /// returns the ticket already open for the same requester, action and
    /// arguments.
    pub fn request_with_id(&mut self, req: ApprovalRequest, id: TicketId, now: u64) -> (res: Result<Ticket, GatewayError>)
        requires
            old(self).wf(),
            now + req.ttl <= u64::MAX,
        ensures
            final(self).wf(),
            final(self).sessions == old(self).sessions,
            final(self).inbox == old(self).inbox,
            final(self).key() == old(self).key(),
            match correlation_key_spec(req.requester@, req.action_kind@, req.args@) {
                None => final(self).tickets == old(self).tickets && (res matches Err(
                    GatewayError::Canonical(CanonicalError::FloatNotAllowed { path }),
                ) && float_path(req.args@, Seq::empty()) == Some(path@)),
                Some(k) => match existing_for(old(self).tickets.tickets(), old(self).tickets.correlations(), k) {
                    Some(t) => final(self).tickets == old(self).tickets && (res matches Ok(r) && r@ == t),
                    None => if ticket_index(old(self).tickets.tickets(), id@) is Some {
                        &&& final(self).tickets == old(self).tickets
                        &&& res matches Err(GatewayError::Store(TicketStoreError::Duplicate(d))) && d@ == id@
                    } else {
                        let t = new_ticket(
                            req.requester@,
                            req.action_kind@,
                            req.args@,
                            req.reason@,
                            match req.hint {
                                Some(h) => Some(h@),
                                None => None,
                            },
                            req.ttl,
                            id@,
                            canonical_hash_spec(req.args@)->Some_0,
                            now,
                        );
                        &&& res matches Ok(r) && r@ == t
                        &&& final(self).tickets.tickets() == old(self).tickets.tickets().push(t)
                        &&& final(self).tickets.correlations() == old(self).tickets.correlations().push((k, id@))
                    },
                },
            },
    {
        let key = match correlation_key(&req.requester, req.action_kind.as_str(), &req.args) {
            Ok(k) => k,
            Err(e) => {
                return Err(GatewayError::Canonical(e));
            },
        };
        match self.tickets.find_by_correlation(key.as_str()) {
            Ok(Some(existing)) => {
                return Ok(existing);
            },
            Ok(None) => {},
            Err(e) => {
                return Err(GatewayError::Store(e));
            },
        }
        let args_hash = match canonical_hash(&req.args) {
            Ok(h) => h,
            Err(e) => {
                return Err(GatewayError::Canonical(e));
            },
        };
        let ticket = Ticket {
            id,
            session_id: req.requester,
            action_kind: req.action_kind,
            args: req.args,
            args_hash,
            reason: req.reason,
            hint: req.hint,
            status: TicketStatus::Pending,
            decision: None,
            created_at: now,
            expires_at: now + req.ttl,
            decided_at: None,
            consumed_at: None,
        };
        match self.tickets.create(ticket.clone(), key.as_str()) {
            Ok(()) => Ok(ticket),
            Err(e) => Err(GatewayError::Store(e)),
        }
    }

    /// Opens a ticket for `req` at time `now` under a fresh random
    /// identifier (see [`default_id_gen`]); see [`Self::request_with_id`].
    pub fn request(&mut self, req: ApprovalRequest, now: u64) -> (res: Result<Ticket, GatewayError>)
        requires
            old(self).wf(),
            now + req.ttl <= u64::MAX,
        ensures
            final(self).wf(),
            final(self).sessions == old(self).sessions,
            final(self).inbox == old(self).inbox,
            final(self).key() == old(self).key(),
            match correlation_key_spec(req.requester@, req.action_kind@, req.args@) {
                None => final(self).tickets == old(self).tickets && (res matches Err(
                    GatewayError::Canonical(CanonicalError::FloatNotAllowed { path }),
                ) && float_path(req.args@, Seq::empty()) == Some(path@)),
                Some(k) => match existing_for(old(self).tickets.tickets(), old(self).tickets.correlations(), k) {
                    Some(t) => final(self).tickets == old(self).tickets && (res matches Ok(r) && r@ == t),
                    None => match res {
                        Ok(r) => {
                            &&& r@ == new_ticket(
                                req.requester@,
                                req.action_kind@,
                                req.args@,
                                req.reason@,
                                match req.hint {
                                    Some(h) => Some(h@),
                                    None => None,
                                },
                                req.ttl,
                                r@.id,
                                canonical_hash_spec(req.args@)->Some_0,
                                now,
                            )
                            &&& ticket_index(old(self).tickets.tickets(), r@.id) is None
                            &&& final(self).tickets.tickets() == old(self).tickets.tickets().push(r@)
                            &&& final(self).tickets.correlations() == old(self).tickets.correlations().push((k, r@.id))
                        },
                        Err(GatewayError::Store(TicketStoreError::Duplicate(d))) => {
                            &&& ticket_index(old(self).tickets.tickets(), d@) is Some
                            &&& final(self).tickets == old(self).tickets
                        },
                        Err(_) => false,
                    },
                },
            },
    {
        let id = default_id_gen();
        self.request_with_id(req, id, now)
    }

    /// Records decision `outcome` by `approver` on ticket `id`, signed
    /// `signature`, at time `now`; announces it in the owner's inbox and
    /// resolves the owner's wait on the ticket.
    pub fn decide(
        &mut self,
        id: &TicketId,
        outcome: ApprovalOutcome,
        approver: ApproverIdentity,
        signature: Vec<u8>,
        now: u64,
    ) -> (res: Result<(), GatewayError>)
        requires
            old(self).wf(),
        ensures
            final(self).wf(),
            final(self).key() == old(self).key(),
            match stored_ticket(old(self).tickets.tickets(), id@) {
                None => res matches Err(GatewayError::NotFound) && *final(self) == *old(self),
                Some(t) => if t.status != TicketStatus::Pending {
                    res matches Err(GatewayError::AlreadyDecided { current_status }) && current_status == t.status
                        && *final(self) == *old(self)
                } else if !verify_accepts(old(self).key(), id@, t.args_hash, outcome, signature@) {
                    res matches Err(GatewayError::BadSignature) && *final(self) == *old(self)
                } else {
                    &&& res is Ok
                    &&& final(self).tickets.tickets() == old(self).tickets.tickets().update(
                        ticket_index(old(self).tickets.tickets(), id@)->Some_0,
                        decided_ticket(t, outcome, approver_view(approver), signature@, now),
                    )
                    &&& final(self).tickets.correlations() == old(self).tickets.correlations()
                    &&& final(self).inbox.queue(t.session_id) == old(self).inbox.queue(t.session_id).push(
                        decided_message(id@, t, outcome, approver_view(approver), now),
                    )
                    &&& forall|sid: Seq<char>| sid != t.session_id ==> #[trigger] final(self).inbox.queue(sid)
                        == old(self).inbox.queue(sid)
                    &&& final(self).sessions.sessions() == sessions_after_resolve(
                        old(self).sessions.sessions(),
                        t.session_id,
                        WaitView::Approval(id@),
                    )
                    &&& final(self).sessions.events() == events_after_resolve(
                        old(self).sessions.sessions(),
                        old(self).sessions.events(),
                        t.session_id,
                    )
                },
            },
    {
        let ghost old_ts = self.tickets.tickets();
        let ticket = match self.tickets.get(id) {
            Ok(Some(t)) => t,
            Ok(None) => {
                return Err(GatewayError::NotFound);
            },
            Err(e) => {
                return Err(GatewayError::Store(e));
            },
        };
        proof {
            lemma_ticket_index(old_ts, id@);
        }
        if ticket.status != TicketStatus::Pending {
            return Err(GatewayError::AlreadyDecided { current_status: ticket.status });
        }
        match verify(self.hmac_key.as_slice(), id, ticket.args_hash.as_str(), &outcome, signature.as_slice()) {
            Ok(()) => {},
            Err(_) => {
                return Err(GatewayError::BadSignature);
            },
        }
        let new_status = match &outcome {
            ApprovalOutcome::Approved => TicketStatus::Approved,
            ApprovalOutcome::Denied { .. } => TicketStatus::Denied,
            ApprovalOutcome::Expired => TicketStatus::Expired,
        };
        let reason = match &outcome {
            ApprovalOutcome::Denied { reason } => Some(reason.clone()),
            _ => None,
        };
        let ghost av = approver_view(approver);
        let ghost sig = signature@;
        let decision = Decision { approver: approver.clone(), signature, reason };
        match self.tickets.record_decision(id, decision, now) {
            Ok(()) => {},
            Err(e) => {
                return Err(GatewayError::Store(e));
            },
        }
        proof {
            let i = ticket_index(old_ts, id@)->Some_0;
            lemma_ticket_index_unique(self.tickets.tickets(), i);
        }
        match self.tickets.update_status(id, new_status) {
            Ok(()) => {},
            Err(e) => {
                return Err(GatewayError::Store(e));
            },
        }
        proof {
            let i = ticket_index(old_ts, id@)->Some_0;
            assert(self.tickets.tickets() =~= old_ts.update(
                i,
                decided_ticket(old_ts[i], outcome, av, sig, now),
            ));
        }
        let msg = SystemMsg::ApprovalDecided {
            ticket_id: id.clone(),
            action_kind: ticket.action_kind.clone(),
            decision: outcome,
            approver,
            decided_at: now,
        };
        match self.inbox.push(&ticket.session_id, msg) {
            Ok(()) => {},
            Err(e) => {
                return Err(GatewayError::Session(e));
            },
        }
        let _ = self.sessions.remove_wait(&ticket.session_id, &Wait::Approval(id.clone()));
        Ok(())
    }

    /// Signs `outcome` with the gateway's own key, then [`Self::decide`]s:
    /// a pending ticket is always decided this way.
    pub fn decide_local(
        &mut self,
        id: &TicketId,
        outcome: ApprovalOutcome,
        approver: ApproverIdentity,
        now: u64,
    ) -> (res: Result<(), GatewayError>)
        requires
            old(self).wf(),
        ensures
            final(self).wf(),
            final(self).key() == old(self).key(),
            local_decision(*old(self), *final(self), id@, outcome, approver, now, res),
    {
        let ghost old_ts = self.tickets.tickets();
        let ticket = match self.tickets.get(id) {
            Ok(Some(t)) => t,
            Ok(None) => {
                return Err(GatewayError::NotFound);
            },
            Err(e) => {
                return Err(GatewayError::Store(e));
            },
        };
        let signature = match sign(self.hmac_key.as_slice(), id, ticket.args_hash.as_str(), &outcome) {
            Ok(s) => s,
            Err(_) => {
                return Err(GatewayError::BadSignature);
            },
        };
        self.decide(id, outcome, approver, signature, now)
    }

    /// The runtime checkpoint for a call from `calling_session` with
    /// `current_args` at time `now`. On success the ticket becomes
    /// `Consumed` and its stored copy (as it was before) is returned.
    pub fn gate_call(
        &mut self,
        id: &TicketId,
        calling_session: &SessionId,
        current_args: &crate::json::JsonValue,
        now: u64,
    ) -> (res: Result<GateOk, GatewayError>)
        requires
            old(self).wf(),
        ensures
            final(self).wf(),
            final(self).key() == old(self).key(),
            final(self).sessions == old(self).sessions,
            final(self).inbox == old(self).inbox,
            match gate_verdict(
                stored_ticket(old(self).tickets.tickets(), id@),
                old(self).key(),
                id@,
                calling_session@,
                current_args@,
                now,
            ) {
                GateVerdict::Pass => {
                    let i = ticket_index(old(self).tickets.tickets(), id@)->Some_0;
                    &&& res matches Ok(g) && g.ticket@ == old(self).tickets.tickets()[i]
                    &&& final(self).tickets.tickets() == old(self).tickets.tickets().update(
                        i,
                        TicketView { status: TicketStatus::Consumed, ..old(self).tickets.tickets()[i] },
                    )
                    &&& final(self).tickets.correlations() == old(self).tickets.correlations()
                },
                GateVerdict::NotFound => res matches Err(GatewayError::NotFound) && final(self).tickets
                    == old(self).tickets,
                GateVerdict::SessionMismatch => res matches Err(GatewayError::SessionMismatch)
                    && final(self).tickets == old(self).tickets,
                GateVerdict::Consumed => res matches Err(GatewayError::Consumed) && final(self).tickets
                    == old(self).tickets,
                GateVerdict::Expired => res matches Err(GatewayError::Expired) && final(self).tickets
                    == old(self).tickets,
                GateVerdict::NotApproved => res matches Err(GatewayError::NotApproved) && final(self).tickets
                    == old(self).tickets,
                GateVerdict::FloatArgs => final(self).tickets == old(self).tickets && (res matches Err(
                    GatewayError::Canonical(CanonicalError::FloatNotAllowed { path }),
                ) && float_path(current_args@, Seq::empty()) == Some(path@)),
                GateVerdict::ArgsDrift => res matches Err(GatewayError::ArgsDrift) && final(self).tickets
                    == old(self).tickets,
                GateVerdict::BadSignature => res matches Err(GatewayError::BadSignature)
                    && final(self).tickets == old(self).tickets,
            },
    {
        let ghost old_ts = self.tickets.tickets();
        let ticket = match self.tickets.get(id) {
            Ok(Some(t)) => t,
            Ok(None) => {
                return Err(GatewayError::NotFound);
            },
            Err(e) => {
                return Err(GatewayError::Store(e));
            },
        };
        proof {
            lemma_ticket_index(old_ts, id@);
        }
        if !ticket.session_id.same_as(calling_session) {
            return Err(GatewayError::SessionMismatch);
        }
        match ticket.status {
            TicketStatus::Approved => {},
            TicketStatus::Consumed => {
                return Err(GatewayError::Consumed);
            },
            TicketStatus::Expired | TicketStatus::Orphaned => {
                return Err(GatewayError::Expired);
            },
            _ => {
                return Err(GatewayError::NotApproved);
            },
        }
        let cur_hash = match canonical_hash(current_args) {
            Ok(h) => h,
            Err(e) => {
                return Err(GatewayError::Canonical(e));
            },
        };
        if cur_hash != ticket.args_hash {
            return Err(GatewayError::ArgsDrift);
        }
        if now >= ticket.expires_at {
            return Err(GatewayError::Expired);
        }
        match &ticket.decision {
            None => {
                return Err(GatewayError::NotApproved);
            },
            Some(decision) => {
                match verify(
                    self.hmac_key.as_slice(),
                    id,
                    ticket.args_hash.as_str(),
                    &ApprovalOutcome::Approved,
                    decision.signature.as_slice(),
                ) {
                    Ok(()) => {},
                    Err(_) => {
                        return Err(GatewayError::BadSignature);
                    },
                }
            },
        }
        match self.tickets.update_status(id, TicketStatus::Consumed) {
            Ok(()) => {},
            Err(e) => {
                return Err(GatewayError::Store(e));
            },
        }
        Ok(GateOk { ticket })
    }
}

} // verus!
