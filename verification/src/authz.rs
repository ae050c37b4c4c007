//! Authorization vocabulary shared by the hook and the audit log: who asks,
//! what was decided, and the audit record of each decision.

use vstd::prelude::*;

verus! {

/// The identity an agent acts under.
#[derive(Debug)]
pub struct Principal {
    pub id: String,
    pub principal_type: String,
    pub delegation_record_id: Option<u64>,
}

impl Clone for Principal {
    fn clone(&self) -> (res: Self)
        ensures
            res == *self,
    {
        Principal {
            id: self.id.clone(),
            principal_type: self.principal_type.clone(),
            delegation_record_id: self.delegation_record_id,
        }
    }
}

/// Allow or deny.
#[derive(Debug, Clone, Copy, PartialEq, Eq, Structural)]
pub enum AuthorizationDecision {
    Allow,
    Deny,
}

/// A decision, with the reason for a denial.
#[derive(Debug)]
pub struct AuthorizationResult {
    pub decision: AuthorizationDecision,
    pub reason: Option<String>,
}

/// What a request carries besides principal, action and resource.
#[derive(Debug)]
pub struct PolicyContext {
    pub delegation_record_id: Option<u64>,
    pub requested_domain: Option<String>,
}

/// One authorization question.
#[derive(Debug)]
pub struct AuthorizationRequest {
    pub principal: Principal,
    pub action: String,
    pub resource: String,
    pub context: PolicyContext,
}

/// The audit record of one decision.
#[derive(Debug)]
pub struct AuditEntry {
    pub principal_id: String,
    pub principal_type: String,
    pub action: String,
    pub resource: String,
    pub decision: AuthorizationDecision,
    pub denial_reason: Option<String>,
}

impl Clone for AuditEntry {
    fn clone(&self) -> (res: Self)
        ensures
            res == *self,
    {
        let denial_reason = match &self.denial_reason {
            Some(r) => Some(r.clone()),
            None => None,
        };
        AuditEntry {
            principal_id: self.principal_id.clone(),
            principal_type: self.principal_type.clone(),
            action: self.action.clone(),
            resource: self.resource.clone(),
            decision: self.decision,
            denial_reason,
        }
    }
}

impl AuditEntry {
    /// The record of `result` for `request`.
    pub fn from_request(request: &AuthorizationRequest, result: &AuthorizationResult) -> (res: AuditEntry)
        ensures
            res.principal_id == request.principal.id,
            res.principal_type == request.principal.principal_type,
            res.action == request.action,
            res.resource == request.resource,
            res.decision == result.decision,
            res.denial_reason == result.reason,
    {
        let denial_reason = match &result.reason {
            Some(r) => Some(r.clone()),
            None => None,
        };
        AuditEntry {
            principal_id: request.principal.id.clone(),
            principal_type: request.principal.principal_type.clone(),
            action: request.action.clone(),
            resource: request.resource.clone(),
            decision: result.decision,
            denial_reason,
        }
    }
}

} // verus!
