//! Inbox message types and rendering.
//!
//! `SystemMsg` is the strongly-typed sum of every event the runtime can push
//! into a session's inbox. Rendering to model context is a function of the
//! variant, never a stored field.
//!
//! Instants and durations are nanoseconds on the runtime's clock.

use vstd::prelude::*;
use crate::approvals::outcome::{ApprovalOutcome, ApproverIdentity, ApproverKind, approver_view};
use crate::approvals::types::TicketId;
use crate::numfmt::{decimal_digits, push_decimal};
use crate::sessions::{Session, SessionId, WaitRef, WaitRefKind, WaitView, wait_ref_of};
use crate::sub_agent::outcome::SubAgentOutcome;
use crate::text::{char_prefix, concat_all, joined, prefix_chars};

verus! {

/// An event delivered to a session's inbox.
#[derive(Debug)]
pub enum SystemMsg {
    ApprovalDecided {
        ticket_id: TicketId,
        action_kind: String,
        decision: ApprovalOutcome,
        approver: ApproverIdentity,
        decided_at: u64,
    },
    SubAgentFinished {
        child_session_id: SessionId,
        agent_label: String,
        outcome: SubAgentOutcome,
        finished_at: u64,
    },
    UserMessage { text: String, received_at: u64 },
    DeadlineWarning { remaining: u64 },
}

/// The content of a [`SystemMsg`].
pub enum SystemMsgView {
    ApprovalDecided {
        ticket_id: Seq<char>,
        action_kind: Seq<char>,
        decision: ApprovalOutcome,
        approver: (ApproverKind, Seq<String>),
        decided_at: u64,
    },
    SubAgentFinished {
        child_session_id: Seq<char>,
        agent_label: Seq<char>,
        outcome: SubAgentOutcome,
        finished_at: u64,
    },
    UserMessage { text: Seq<char>, received_at: u64 },
    DeadlineWarning { remaining: u64 },
}

impl View for SystemMsg {
    type V = SystemMsgView;

    open spec fn view(&self) -> SystemMsgView {
        match self {
            SystemMsg::ApprovalDecided { ticket_id, action_kind, decision, approver, decided_at } =>
                SystemMsgView::ApprovalDecided {
                ticket_id: ticket_id@,
                action_kind: action_kind@,
                decision: *decision,
                approver: approver_view(*approver),
                decided_at: *decided_at,
            },
            SystemMsg::SubAgentFinished { child_session_id, agent_label, outcome, finished_at } =>
                SystemMsgView::SubAgentFinished {
                child_session_id: child_session_id@,
                agent_label: agent_label@,
                outcome: *outcome,
                finished_at: *finished_at,
            },
            SystemMsg::UserMessage { text, received_at } => SystemMsgView::UserMessage {
                text: text@,
                received_at: *received_at,
            },
            SystemMsg::DeadlineWarning { remaining } => SystemMsgView::DeadlineWarning {
                remaining: *remaining,
            },
        }
    }
}

impl Clone for SystemMsg {
    fn clone(&self) -> (res: Self)
        ensures
            res@ == self@,
    {
        match self {
            SystemMsg::ApprovalDecided { ticket_id, action_kind, decision, approver, decided_at } =>
                SystemMsg::ApprovalDecided {
                ticket_id: ticket_id.clone(),
                action_kind: action_kind.clone(),
                decision: decision.clone(),
                approver: approver.clone(),
                decided_at: *decided_at,
            },
            SystemMsg::SubAgentFinished { child_session_id, agent_label, outcome, finished_at } =>
                SystemMsg::SubAgentFinished {
                child_session_id: child_session_id.clone(),
                agent_label: agent_label.clone(),
                outcome: outcome.clone(),
                finished_at: *finished_at,
            },
            SystemMsg::UserMessage { text, received_at } => SystemMsg::UserMessage {
                text: text.clone(),
                received_at: *received_at,
            },
            SystemMsg::DeadlineWarning { remaining } => SystemMsg::DeadlineWarning {
                remaining: *remaining,
            },
        }
    }
}

/// Nanoseconds in a second.
pub const NANOS_PER_SEC: u64 = 1_000_000_000;

/// How many characters of a user message the rendered line previews.
pub const USER_PREVIEW_CHARS: usize = 80;

/// The line an inbox message is rendered to.
pub open spec fn render_spec(m: SystemMsgView) -> Seq<char> {
    match m {
        SystemMsgView::ApprovalDecided { ticket_id, action_kind, .. } => "approval ticket "@ + ticket_id
            + " for action "@ + action_kind + " decided"@,
        SystemMsgView::SubAgentFinished { child_session_id, agent_label, .. } => "sub-agent "@
            + agent_label + "/"@ + child_session_id + " finished"@,
        SystemMsgView::UserMessage { text, .. } => "user said: "@ + char_prefix(
            text,
            USER_PREVIEW_CHARS as nat,
        ),
        SystemMsgView::DeadlineWarning { remaining } => "deadline warning: "@ + decimal_digits(
            (remaining / NANOS_PER_SEC) as nat,
        ) + " seconds remaining"@,
    }
}

/// Render an inbox message to a human-readable line for the model.
pub fn render(msg: &SystemMsg) -> (res: String)
    ensures
        res@ == render_spec(msg@),
{
    let mut out = String::new();
    match msg {
        SystemMsg::ApprovalDecided { ticket_id, action_kind, .. } => {
            out.append("approval ticket ");
            out.append(ticket_id.0.as_str());
            out.append(" for action ");
            out.append(action_kind.as_str());
            out.append(" decided");
        },
        SystemMsg::SubAgentFinished { child_session_id, agent_label, .. } => {
            out.append("sub-agent ");
            out.append(agent_label.as_str());
            out.append("/");
            out.append(child_session_id.as_str());
            out.append(" finished");
        },
        SystemMsg::UserMessage { text, .. } => {
            out.append("user said: ");
            let preview = prefix_chars(text.as_str(), USER_PREVIEW_CHARS);
            out.append(preview.as_str());
        },
        SystemMsg::DeadlineWarning { remaining } => {
            out.append("deadline warning: ");
            push_decimal(&mut out, *remaining / NANOS_PER_SEC);
            out.append(" seconds remaining");
        },
    }
    proof {
        assert(out@ =~= render_spec(msg@));
    }
    out
}

/// How one wait is listed in the turn header.
pub open spec fn wait_part(w: WaitView) -> Seq<char> {
    let (kind, label) = wait_ref_of(w);
    match kind {
        WaitRefKind::Approval => "approval:"@ + label,
        WaitRefKind::SubAgent => "sub_agent:"@ + label,
        WaitRefKind::UserMessage => "user_message"@,
    }
}

/// The wait-state header: empty when nothing is awaited.
pub open spec fn wait_header(waits: Seq<WaitView>) -> Seq<char> {
    if waits.len() == 0 {
        Seq::empty()
    } else {
        "Currently waiting on: ["@ + joined(Seq::new(waits.len(), |i: int| wait_part(waits[i])), ", "@)
            + "]\n"@
    }
}

/// One bullet line per drained message.
pub open spec fn message_lines(msgs: Seq<SystemMsgView>) -> Seq<char> {
    concat_all(Seq::new(msgs.len(), |i: int| "- "@ + render_spec(msgs[i]) + "\n"@))
}

/// The whole turn message: header, then one line per message.
pub open spec fn render_for_turn_spec(waits: Seq<WaitView>, msgs: Seq<SystemMsgView>) -> Seq<char> {
    wait_header(waits) + message_lines(msgs)
}

fn wait_part_text(w: &WaitRef) -> (res: String)
    ensures
        res@ == (match w.kind {
            WaitRefKind::Approval => "approval:"@ + w.label@,
            WaitRefKind::SubAgent => "sub_agent:"@ + w.label@,
            WaitRefKind::UserMessage => "user_message"@,
        }),
{
    let mut out = String::new();
    match w.kind {
        WaitRefKind::Approval => {
            out.append("approval:");
            out.append(w.label.as_str());
        },
        WaitRefKind::SubAgent => {
            out.append("sub_agent:");
            out.append(w.label.as_str());
        },
        WaitRefKind::UserMessage => {
            out.append("user_message");
        },
    }
    out
}

/// Render the wait-state header and the drained inbox events as a single
/// system message.
pub fn render_for_turn(session: &Session, drained: &[SystemMsg]) -> (res: String)
    ensures
        res@ == render_for_turn_spec(session@.waits, drained@.map_values(|m: SystemMsg| m@)),
{
    let mut out = String::new();
    let ghost waits = session@.waits;
    let ghost parts = Seq::new(waits.len(), |i: int| wait_part(waits[i]));
    if session.waits.len() > 0 {
        out.append("Currently waiting on: [");
        let mut i: usize = 0;
        while i < session.waits.len()
            invariant
                i <= session.waits@.len(),
                waits == session@.waits,
                parts == Seq::new(waits.len(), |k: int| wait_part(waits[k])),
                out@ == "Currently waiting on: ["@ + joined(parts.take(i as int), ", "@),
            decreases session.waits@.len() - i,
        {
            let w = WaitRef::from_wait(&session.waits[i]);
            let part = wait_part_text(&w);
            proof {
                assert(waits[i as int] == session.waits@[i as int]@);
                assert(part@ == parts[i as int]);
                assert(parts.take(i as int + 1).drop_last() =~= parts.take(i as int));
            }
            if i > 0 {
                out.append(", ");
            }
            out.append(part.as_str());
            proof {
                let t = parts.take(i as int + 1);
                assert(t.last() == parts[i as int]);
                if i == 0 {
                    assert(joined(t, ", "@) == t[0]);
                } else {
                    assert(joined(t, ", "@) == joined(t.drop_last(), ", "@) + ", "@ + t.last());
                }
            }
            i = i + 1;
        }
        out.append("]\n");
        proof {
            assert(parts.take(waits.len() as int) =~= parts);
        }
    }
    let ghost header = out@;
    proof {
        assert(header == wait_header(waits));
    }
    let ghost msgs = drained@.map_values(|m: SystemMsg| m@);
    let ghost lines = Seq::new(msgs.len(), |k: int| "- "@ + render_spec(msgs[k]) + "\n"@);
    let mut j: usize = 0;
    while j < drained.len()
        invariant
            j <= drained@.len(),
            msgs == drained@.map_values(|m: SystemMsg| m@),
            lines == Seq::new(msgs.len(), |k: int| "- "@ + render_spec(msgs[k]) + "\n"@),
            out@ == header + concat_all(lines.take(j as int)),
        decreases drained@.len() - j,
    {
        out.append("- ");
        let line = render(&drained[j]);
        out.append(line.as_str());
        out.append("\n");
        proof {
            let t = lines.take(j as int + 1);
            assert(t.drop_last() =~= lines.take(j as int));
            assert(t.last() == lines[j as int]);
            assert(msgs[j as int] == drained@[j as int]@);
            assert(out@ =~= header + concat_all(t));
        }
        j = j + 1;
    }
    proof {
        assert(lines.take(msgs.len() as int) =~= lines);
    }
    out
}

} // verus!
