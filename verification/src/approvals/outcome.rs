//! Approval outcome and approver identity.

use vstd::prelude::*;

verus! {

/// What a human (or the expiry sweep) decided about a ticket.
#[derive(Debug, PartialEq, Eq)]
pub enum ApprovalOutcome {
    Approved,
    Denied { reason: String },
    Expired,
}

impl Clone for ApprovalOutcome {
    fn clone(&self) -> (res: Self)
        ensures
            res == *self,
    {
        match self {
            ApprovalOutcome::Approved => ApprovalOutcome::Approved,
            ApprovalOutcome::Denied { reason } => ApprovalOutcome::Denied { reason: reason.clone() },
            ApprovalOutcome::Expired => ApprovalOutcome::Expired,
        }
    }
}

/// How an approver proved their identity.
#[derive(Debug, PartialEq, Eq)]
pub enum ApproverKind {
    LocalKey { key_id: String },
    Jwt { sub: String, iss: String },
}

impl Clone for ApproverKind {
    fn clone(&self) -> (res: Self)
        ensures
            res == *self,
    {
        match self {
            ApproverKind::LocalKey { key_id } => ApproverKind::LocalKey { key_id: key_id.clone() },
            ApproverKind::Jwt { sub, iss } => ApproverKind::Jwt { sub: sub.clone(), iss: iss.clone() },
        }
    }
}

/// Who decided, and under which roles.
#[derive(Debug, PartialEq, Eq)]
pub struct ApproverIdentity {
    pub kind: ApproverKind,
    pub roles: Vec<String>,
}

/// The content of an approver identity.
pub open spec fn approver_view(a: ApproverIdentity) -> (ApproverKind, Seq<String>) {
    (a.kind, a.roles@)
}

/// Copies a list of strings.
pub fn clone_strings(v: &Vec<String>) -> (res: Vec<String>)
    ensures
        res@ == v@,
{
    let mut out: Vec<String> = Vec::new();
    let mut i: usize = 0;
    while i < v.len()
        invariant
            i <= v@.len(),
            out@ == v@.take(i as int),
        decreases v@.len() - i,
    {
        out.push(v[i].clone());
        i = i + 1;
        proof {
            assert(out@ =~= v@.take(i as int));
        }
    }
    proof {
        assert(v@.take(v@.len() as int) =~= v@);
    }
    out
}

impl Clone for ApproverIdentity {
    fn clone(&self) -> (res: Self)
        ensures
            approver_view(res) == approver_view(*self),
    {
        ApproverIdentity { kind: self.kind.clone(), roles: clone_strings(&self.roles) }
    }
}

} // verus!
