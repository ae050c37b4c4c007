//! How a sub-agent's run ended.

use vstd::prelude::*;

verus! {

/// Why a sub-agent gave up before finishing.
#[derive(Debug, Clone, Copy, PartialEq, Eq, Structural)]
pub enum AbandonReason {
    DeadlineExceeded,
    TurnLimitReached,
    ParentAbandoned,
}

/// The result a sub-agent hands back to its parent.
#[derive(Debug, PartialEq, Eq)]
pub enum SubAgentOutcome {
    Done { summary: String, result: String },
    Abandoned(AbandonReason),
}

impl Clone for SubAgentOutcome {
    fn clone(&self) -> (res: Self)
        ensures
            res == *self,
    {
        match self {
            SubAgentOutcome::Done { summary, result } => SubAgentOutcome::Done {
                summary: summary.clone(),
                result: result.clone(),
            },
            SubAgentOutcome::Abandoned(r) => SubAgentOutcome::Abandoned(*r),
        }
    }
}

} // verus!
