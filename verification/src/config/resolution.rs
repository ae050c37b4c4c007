//! How an agent's settings resolve against the runtime defaults.

use vstd::prelude::*;
use crate::agents::AgentConfig;
use crate::config::approvals_section::{ApprovalsConfig, duration_for, lookup_duration};
use crate::config::runtime_section::RuntimeConfig;

verus! {

/// Ticket lifetime when neither an override nor a runtime default exists:
/// ten minutes.
pub const HARD_APPROVAL_TTL_FALLBACK: u64 = 600_000_000_000;

/// The deadline of a parent session, if it has one.
pub struct SessionDeadline {
    pub deadline: Option<u64>,
}

/// The agent's own turn limit, else the runtime default, never below one.
pub fn resolve_max_turns(agent: &AgentConfig, runtime: &RuntimeConfig) -> (res: u32)
    ensures
        res == (match agent.max_turns {
            Some(n) => if n >= 1 { n } else { 1 },
            None => if runtime.default_max_turns >= 1 { runtime.default_max_turns } else { 1 },
        }),
{
    let n = match agent.max_turns {
        Some(n) => n,
        None => runtime.default_max_turns,
    };
    if n >= 1 {
        n
    } else {
        1
    }
}

/// The agent's own session lifetime, else the runtime default.
pub fn resolve_session_ttl(agent: &AgentConfig, runtime: &RuntimeConfig) -> (res: Option<u64>)
    ensures
        res == (match agent.session_ttl {
            Some(d) => Some(d),
            None => runtime.default_session_ttl,
        }),
{
    match agent.session_ttl {
        Some(d) => Some(d),
        None => runtime.default_session_ttl,
    }
}

/// The deadline of a child session started at `now`.
pub open spec fn child_deadline(now: u64, parent: Option<u64>, runtime: RuntimeConfig) -> int {
    let default = now + runtime.default_child_ttl;
    match parent {
        None => default,
        Some(deadline) => {
            let remaining = if deadline > now { deadline - now } else { 0 };
            if remaining > runtime.child_ttl_margin + runtime.default_child_ttl {
                default
            } else if remaining > runtime.child_ttl_margin {
                deadline - runtime.child_ttl_margin
            } else {
                deadline as int
            }
        },
    }
}

/// A child gets the default child lifetime, unless that would run into its
/// parent's deadline: then it ends a margin before the parent, or with the
/// parent when even the margin does not fit.
pub fn resolve_child_ttl(now: u64, parent: SessionDeadline, runtime: &RuntimeConfig) -> (res: u64)
    requires
        now + runtime.default_child_ttl <= u64::MAX,
        runtime.child_ttl_margin + runtime.default_child_ttl <= u64::MAX,
    ensures
        res == child_deadline(now, parent.deadline, *runtime),
        res <= now + runtime.default_child_ttl || (parent.deadline == Some(res) && res <= now
            + runtime.child_ttl_margin),
        parent.deadline matches Some(d) && d > now && d - now > runtime.child_ttl_margin
            + runtime.default_child_ttl ==> res == now + runtime.default_child_ttl,
{
    let default = now + runtime.default_child_ttl;
    let deadline = match parent.deadline {
        None => {
            return default;
        },
        Some(d) => d,
    };
    let margin = runtime.child_ttl_margin;
    let remaining = if deadline > now {
        deadline - now
    } else {
        0
    };
    if remaining > margin + runtime.default_child_ttl {
        default
    } else if remaining > margin {
        deadline - margin
    } else {
        deadline
    }
}

/// The override for `action_kind`, else the runtime default, else the hard
/// fallback. An explicit zero is kept.
pub fn resolve_approval_ttl(action_kind: &str, approvals: &ApprovalsConfig, runtime_default: Option<u64>) -> (res: u64)
    ensures
        res == (match duration_for(approvals.ttl_overrides@, action_kind@) {
            Some(d) => d,
            None => match runtime_default {
                Some(d) => d,
                None => HARD_APPROVAL_TTL_FALLBACK,
            },
        }),
{
    match lookup_duration(&approvals.ttl_overrides, action_kind) {
        Some(d) => d,
        None => match runtime_default {
            Some(d) => d,
            None => HARD_APPROVAL_TTL_FALLBACK,
        },
    }
}

/// A ticket expires when its action lifetime runs out or its session ends,
/// whichever comes first.
pub fn cap_ticket_expiry(now: u64, action_ttl: u64, session_deadline: Option<u64>) -> (res: u64)
    requires
        now + action_ttl <= u64::MAX,
    ensures
        res == (match session_deadline {
            Some(sd) => if sd < now + action_ttl { sd as int } else { now + action_ttl },
            None => now + action_ttl,
        }),
{
    let action_deadline = now + action_ttl;
    match session_deadline {
        Some(sd) => if sd < action_deadline {
            sd
        } else {
            action_deadline
        },
        None => action_deadline,
    }
}

/// A ticket never outlives the session that owns it, nor its own lifetime.
pub proof fn lemma_ticket_expiry_bounded(now: u64, action_ttl: u64, session_deadline: Option<u64>, res: int)
    requires
        res == (match session_deadline {
            Some(sd) => if sd < now + action_ttl { sd as int } else { now + action_ttl },
            None => now + action_ttl,
        }),
    ensures
        res <= now + action_ttl,
        session_deadline matches Some(sd) ==> res <= sd,
{
}

/// What a child session's deadline satisfies, for a child started at `now`
/// whose parent ends at `parent` (if ever):
/// - without a parent deadline, the child gets exactly the default child
///   lifetime;
/// - it never gets more than the default child lifetime, unless the parent
///   ends within the margin, when the child ends with the parent;
/// - when the parent's remaining time exceeds the margin plus the default
///   child lifetime, the child gets exactly the default child lifetime;
/// - when the parent's remaining time exceeds the margin, the child ends at
///   least a margin before the parent, and exactly a margin before it when
///   the default child lifetime would not end that early;
/// - when the parent's remaining time is within the margin, the child ends
///   with the parent.
pub proof fn lemma_child_deadline_law(now: u64, parent: Option<u64>, runtime: RuntimeConfig)
    ensures
        ({
            let res = child_deadline(now, parent, runtime);
            let default = now + runtime.default_child_ttl;
            let margin = runtime.child_ttl_margin;
            &&& parent is None ==> res == default
            &&& res <= default || (parent matches Some(d) && res == d && d <= now + margin)
            &&& parent matches Some(d) ==> {
                let remaining = if d > now { d - now } else { 0int };
                &&& remaining > margin + runtime.default_child_ttl ==> res == default
                &&& remaining > margin ==> res + margin <= d
                &&& remaining > margin && default + margin >= d ==> res + margin == d
                &&& remaining <= margin ==> res == d
            }
        }),
{
}

/// A child session never outlives its parent's deadline, when the parent
/// has one and it lies ahead.
pub proof fn lemma_child_within_parent(now: u64, deadline: u64, runtime: RuntimeConfig)
    ensures
        child_deadline(now, Some(deadline), runtime) <= deadline || deadline <= now && child_deadline(
            now,
            Some(deadline),
            runtime,
        ) == deadline,
{
}

} // verus!
