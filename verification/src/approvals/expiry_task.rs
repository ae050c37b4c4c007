//! Expiry sweep: moves pending tickets past their deadline to `Expired` and
//! tells each owner through its inbox. The periodic loop that runs the
//! sweep lives with the async runtime; the sweep itself is here.

use vstd::prelude::*;
use crate::approvals::gateway::GatewayError;
use crate::approvals::outcome::{ApprovalOutcome, ApproverIdentity, ApproverKind, approver_view};
use crate::approvals::types::{TicketStatus, TicketView};
use crate::inbox::{SystemMsg, SystemMsgView};
use crate::persistence::memory::InMemoryInbox;
use crate::persistence::tickets::{InMemoryTicketStore, ids_distinct, lemma_ticket_index_unique};

verus! {

/// Whether the expiry sweep at time `now` touches ticket `t`.
pub open spec fn expiry_candidate(t: TicketView, now: u64) -> bool {
    t.status == TicketStatus::Pending && now >= t.expires_at
}

/// Ticket `t` after the expiry sweep at `now`.
pub open spec fn after_expiry_sweep(t: TicketView, now: u64) -> TicketView {
    if expiry_candidate(t, now) {
        TicketView { status: TicketStatus::Expired, ..t }
    } else {
        t
    }
}

/// How many tickets of `ts` the expiry sweep at `now` touches.
pub open spec fn expiry_count(ts: Seq<TicketView>, now: u64) -> nat
    decreases ts.len(),
{
    if ts.len() == 0 {
        0
    } else {
        expiry_count(ts.drop_last(), now) + if expiry_candidate(ts.last(), now) {
            1nat
        } else {
            0nat
        }
    }
}

/// The approver the sweep signs its messages as: local key `system`, no roles.
pub open spec fn is_system_approver(a: (ApproverKind, Seq<String>)) -> bool {
    &&& a.1.len() == 0
    &&& a.0 matches ApproverKind::LocalKey { key_id } && key_id@ == "system"@
}

/// The message announcing that ticket `t` expired at `now`.
pub open spec fn expiry_message(t: TicketView, now: u64, approver: (ApproverKind, Seq<String>)) -> SystemMsgView {
    SystemMsgView::ApprovalDecided {
        ticket_id: t.id,
        action_kind: t.action_kind,
        decision: ApprovalOutcome::Expired,
        approver,
        decided_at: now,
    }
}

/// The expiry messages that session `sid` receives, in ticket order.
pub open spec fn expiry_messages(
    ts: Seq<TicketView>,
    sid: Seq<char>,
    now: u64,
    approver: (ApproverKind, Seq<String>),
) -> Seq<SystemMsgView>
    decreases ts.len(),
{
    if ts.len() == 0 {
        Seq::empty()
    } else if expiry_candidate(ts.last(), now) && ts.last().session_id == sid {
        expiry_messages(ts.drop_last(), sid, now, approver).push(expiry_message(ts.last(), now, approver))
    } else {
        expiry_messages(ts.drop_last(), sid, now, approver)
    }
}

/// A prefix holds no more expiries than the whole list, which holds no more
/// than its length.
pub proof fn lemma_expiry_count_prefix(ts: Seq<TicketView>, now: u64, k: int)
    requires
        0 <= k <= ts.len(),
    ensures
        expiry_count(ts.take(k), now) <= expiry_count(ts, now),
        expiry_count(ts, now) <= ts.len(),
    decreases ts.len() - k,
{
    if k < ts.len() {
        lemma_expiry_count_prefix(ts, now, k + 1);
        assert(ts.take(k + 1).drop_last() =~= ts.take(k));
    } else {
        assert(ts.take(k) =~= ts);
        lemma_expiry_count_bound(ts, now);
    }
}

proof fn lemma_expiry_count_bound(ts: Seq<TicketView>, now: u64)
    ensures
        expiry_count(ts, now) <= ts.len(),
    decreases ts.len(),
{
    if ts.len() > 0 {
        lemma_expiry_count_bound(ts.drop_last(), now);
    }
}

fn system_approver() -> (res: ApproverIdentity)
    ensures
        is_system_approver(approver_view(res)),
{
    let roles: Vec<String> = Vec::new();
    let res = ApproverIdentity { kind: ApproverKind::LocalKey { key_id: "system".to_owned() }, roles };
    proof {
        assert(approver_view(res).1 =~= Seq::<String>::empty());
    }
    res
}

/// Expires every pending ticket whose deadline is at or before `now`,
/// sends its owner an `ApprovalDecided { Expired }` message, and returns
/// how many it expired.
pub fn sweep_expired(tickets: &mut InMemoryTicketStore, inbox: &mut InMemoryInbox, now: u64) -> (res: Result<usize, GatewayError>)
    requires
        old(tickets).wf(),
        old(inbox).wf(),
    ensures
        final(tickets).wf(),
        final(inbox).wf(),
        final(tickets).correlations() == old(tickets).correlations(),
        final(tickets).tickets() == Seq::new(
            old(tickets).tickets().len(),
            |i: int| after_expiry_sweep(old(tickets).tickets()[i], now),
        ),
        res matches Ok(n) && n == expiry_count(old(tickets).tickets(), now),
        exists|sys: (ApproverKind, Seq<String>)| is_system_approver(sys) && forall|sid: Seq<char>| #[trigger]
            final(inbox).queue(sid) == old(inbox).queue(sid) + expiry_messages(old(tickets).tickets(), sid, now, sys),
{
    let ghost ts = tickets.tickets();
    let ghost q0 = *inbox;
    let all = match tickets.list_all() {
        Ok(v) => v,
        Err(e) => {
            return Err(GatewayError::Store(e));
        },
    };
    let sys = system_approver();
    let ghost sv = approver_view(sys);
    let mut count: usize = 0;
    let mut i: usize = 0;
    proof {
        lemma_expiry_count_prefix(ts, now, 0);
        assert forall|sid: Seq<char>| #[trigger] inbox.queue(sid) == q0.queue(sid) + expiry_messages(
            ts.take(0),
            sid,
            now,
            sv,
        ) by {
            assert(inbox.queue(sid) =~= q0.queue(sid) + expiry_messages(ts.take(0), sid, now, sv));
        }
    }
    while i < all.len()
        invariant
            ts.len() == all@.len(),
            forall|j: int| 0 <= j < all@.len() ==> #[trigger] all@[j]@ == ts[j],
            ids_distinct(ts),
            i <= all@.len(),
            tickets.wf(),
            inbox.wf(),
            q0 == *old(inbox),
            approver_view(sys) == sv,
            is_system_approver(sv),
            tickets.correlations() == old(tickets).correlations(),
            ts == old(tickets).tickets(),
            tickets.tickets() == Seq::new(
                ts.len(),
                |j: int| if j < i { after_expiry_sweep(ts[j], now) } else { ts[j] },
            ),
            count == expiry_count(ts.take(i as int), now),
            expiry_count(ts, now) <= ts.len(),
            forall|sid: Seq<char>| #[trigger] inbox.queue(sid) == q0.queue(sid) + expiry_messages(
                ts.take(i as int),
                sid,
                now,
                sv,
            ),
        decreases all@.len() - i,
    {
        let ghost cur = tickets.tickets();
        let ghost before = *inbox;
        proof {
            let t = ts.take(i as int + 1);
            assert(t.drop_last() =~= ts.take(i as int));
            assert(t.last() == ts[i as int]);
            assert(all@[i as int]@ == ts[i as int]);
            lemma_expiry_count_prefix(ts, now, i as int + 1);
        }
        if all[i].status == TicketStatus::Pending && now >= all[i].expires_at {
            proof {
                assert forall|a: int, b: int| 0 <= a < cur.len() && 0 <= b < cur.len() && a != b
                    implies cur[a].id != cur[b].id by {
                    assert(cur[a].id == ts[a].id);
                    assert(cur[b].id == ts[b].id);
                }
                lemma_ticket_index_unique(cur, i as int);
            }
            match tickets.update_status(&all[i].id, TicketStatus::Expired) {
                Ok(()) => {},
                Err(e) => {
                    return Err(GatewayError::Store(e));
                },
            }
            let msg = SystemMsg::ApprovalDecided {
                ticket_id: all[i].id.clone(),
                action_kind: all[i].action_kind.clone(),
                decision: ApprovalOutcome::Expired,
                approver: sys.clone(),
                decided_at: now,
            };
            proof {
                assert(msg@ == expiry_message(ts[i as int], now, sv));
            }
            match inbox.push(&all[i].session_id, msg) {
                Ok(()) => {},
                Err(e) => {
                    return Err(GatewayError::Session(e));
                },
            }
            count = count + 1;
            proof {
                let t = ts.take(i as int + 1);
                assert forall|sid: Seq<char>| #[trigger] inbox.queue(sid) == q0.queue(sid) + expiry_messages(
                    t,
                    sid,
                    now,
                    sv,
                ) by {
                    assert(before.queue(sid) == q0.queue(sid) + expiry_messages(ts.take(i as int), sid, now, sv));
                    if sid == ts[i as int].session_id {
                        assert(inbox.queue(sid) =~= q0.queue(sid) + expiry_messages(t, sid, now, sv));
                    } else {
                        assert(inbox.queue(sid) == before.queue(sid));
                    }
                }
            }
        } else {
            proof {
                let t = ts.take(i as int + 1);
                assert forall|sid: Seq<char>| #[trigger] inbox.queue(sid) == q0.queue(sid) + expiry_messages(
                    t,
                    sid,
                    now,
                    sv,
                ) by {
                    assert(before.queue(sid) == q0.queue(sid) + expiry_messages(ts.take(i as int), sid, now, sv));
                }
            }
        }
        i = i + 1;
        proof {
            assert(tickets.tickets() =~= Seq::new(
                ts.len(),
                |j: int| if j < i { after_expiry_sweep(ts[j], now) } else { ts[j] },
            ));
        }
    }
    proof {
        assert(ts.take(ts.len() as int) =~= ts);
        assert(tickets.tickets() =~= Seq::new(ts.len(), |j: int| after_expiry_sweep(ts[j], now)));
        assert(is_system_approver(sv));
    }
    Ok(count)
}

} // verus!
