//! What the interface's decisions mean for the approval gateway.

use vstd::prelude::*;
use crate::approvals::outcome::{ApprovalOutcome, ApproverIdentity, ApproverKind};
use crate::tui::keymap::ApprovalChoice;
use crate::approvals::outcome::clone_strings;
use crate::approvals::gateway::{ApprovalGateway, GatewayError, local_decision};
use crate::approvals::types::TicketId;

verus! {

/// The outcome a choice in the approvals pane records (`None` for skip).
pub fn outcome_for_choice(choice: ApprovalChoice) -> (res: Option<ApprovalOutcome>)
    ensures
        match choice {
            ApprovalChoice::Approve => res == Some(ApprovalOutcome::Approved),
            ApprovalChoice::Deny { reason } => res == Some(ApprovalOutcome::Denied { reason }),
            ApprovalChoice::Skip => res is None,
        },
{
    match choice {
        ApprovalChoice::Approve => Some(ApprovalOutcome::Approved),
        ApprovalChoice::Deny { reason } => Some(ApprovalOutcome::Denied { reason }),
        ApprovalChoice::Skip => None,
    }
}

/// The identity a local operator decides under: the local key and roles.
pub fn local_identity(key_id: &String, roles: &Vec<String>) -> (res: ApproverIdentity)
    ensures
        res.kind == (ApproverKind::LocalKey { key_id: *key_id }),
        res.roles@ == roles@,
{
    ApproverIdentity { kind: ApproverKind::LocalKey { key_id: key_id.clone() }, roles: clone_strings(roles) }
}

/// Records the local operator's choice on ticket `ticket_id`: skipping
/// changes nothing; approving or denying decides the ticket under the local
/// key and roles.
pub fn approve(
    gateway: &mut ApprovalGateway,
    ticket_id: &TicketId,
    choice: ApprovalChoice,
    local_key_id: &String,
    local_roles: &Vec<String>,
    now: u64,
) -> (res: Result<(), GatewayError>)
    requires
        old(gateway).wf(),
    ensures
        final(gateway).wf(),
        final(gateway).key() == old(gateway).key(),
        match choice {
            ApprovalChoice::Skip => res is Ok && *final(gateway) == *old(gateway),
            ApprovalChoice::Approve => local_decision(
                *old(gateway),
                *final(gateway),
                ticket_id@,
                ApprovalOutcome::Approved,
                ApproverIdentity {
                    kind: ApproverKind::LocalKey { key_id: *local_key_id },
                    roles: *local_roles,
                },
                now,
                res,
            ),
            ApprovalChoice::Deny { reason } => local_decision(
                *old(gateway),
                *final(gateway),
                ticket_id@,
                ApprovalOutcome::Denied { reason },
                ApproverIdentity {
                    kind: ApproverKind::LocalKey { key_id: *local_key_id },
                    roles: *local_roles,
                },
                now,
                res,
            ),
        },
{
    let outcome = match outcome_for_choice(choice) {
        Some(o) => o,
        None => {
            return Ok(());
        },
    };
    let identity = local_identity(local_key_id, local_roles);
    gateway.decide_local(ticket_id, outcome, identity, now)
}

} // verus!
