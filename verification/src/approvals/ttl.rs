//! Approval ticket lifetime resolution.
//!
//! Override, else default, else the fallback of ten minutes; capped by the
//! session deadline so that a ticket never outlives the session that owns
//! it. Durations and instants are nanoseconds.

use vstd::prelude::*;
use crate::config::approvals_section::{duration_for, lookup_duration};

verus! {

/// Ten minutes.
pub const FALLBACK_TTL: u64 = 600_000_000_000;

/// Ticket lifetimes: an optional default and per-action overrides.
#[derive(Debug, Clone, Default)]
pub struct TtlConfig {
    pub default_ttl: Option<u64>,
    pub overrides: Vec<(String, u64)>,
}

/// The override for `action_kind`, else the default, else [`FALLBACK_TTL`].
pub fn resolve_ttl(cfg: &TtlConfig, action_kind: &str) -> (res: u64)
    ensures
        res == (match duration_for(cfg.overrides@, action_kind@) {
            Some(d) => d,
            None => match cfg.default_ttl {
                Some(d) => d,
                None => FALLBACK_TTL,
            },
        }),
{
    match lookup_duration(&cfg.overrides, action_kind) {
        Some(d) => d,
        None => match cfg.default_ttl {
            Some(d) => d,
            None => FALLBACK_TTL,
        },
    }
}

/// `ttl`, shortened to what is left of the session at `now`; zero once the
/// deadline has passed.
pub fn cap_by_session_deadline(now: u64, ttl: u64, deadline: Option<u64>) -> (res: u64)
    ensures
        res == (match deadline {
            Some(d) => if d > now {
                if ttl <= d - now { ttl as int } else { d - now }
            } else {
                0
            },
            None => ttl as int,
        }),
        deadline matches Some(d) ==> now + res <= d || (d <= now && res == 0),
        res <= ttl,
{
    match deadline {
        Some(d) => if d > now {
            let left = d - now;
            if ttl <= left {
                ttl
            } else {
                left
            }
        } else {
            0
        },
        None => ttl,
    }
}

} // verus!
