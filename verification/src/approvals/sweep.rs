//! Orphan sweep: marks the pending tickets of a terminated session
//! `Orphaned`. Approved tickets stay actionable until consumed; only
//! `Pending` becomes `Orphaned`.

use vstd::prelude::*;
use crate::approvals::types::{TicketStatus, TicketView};
use crate::persistence::tickets::{InMemoryTicketStore, TicketStoreError, lemma_ticket_index_unique};
use crate::sessions::SessionId;

verus! {

/// Whether the orphan sweep for session `sid` touches ticket `t`.
pub open spec fn orphan_candidate(t: TicketView, sid: Seq<char>) -> bool {
    t.session_id == sid && t.status == TicketStatus::Pending
}

/// Ticket `t` after the orphan sweep for session `sid`.
pub open spec fn after_orphan_sweep(t: TicketView, sid: Seq<char>) -> TicketView {
    if orphan_candidate(t, sid) {
        TicketView { status: TicketStatus::Orphaned, ..t }
    } else {
        t
    }
}

/// How many tickets of `ts` the orphan sweep for `sid` touches.
pub open spec fn orphan_count(ts: Seq<TicketView>, sid: Seq<char>) -> nat
    decreases ts.len(),
{
    if ts.len() == 0 {
        0
    } else {
        orphan_count(ts.drop_last(), sid) + if orphan_candidate(ts.last(), sid) {
            1nat
        } else {
            0nat
        }
    }
}

/// No more tickets are orphaned than there are tickets.
pub proof fn lemma_orphan_count_bound(ts: Seq<TicketView>, sid: Seq<char>)
    ensures
        orphan_count(ts, sid) <= ts.len(),
    decreases ts.len(),
{
    if ts.len() > 0 {
        lemma_orphan_count_bound(ts.drop_last(), sid);
    }
}

/// Marks every pending ticket of session `sid` `Orphaned` and returns how
/// many it marked.
pub fn sweep_orphans(tickets: &mut InMemoryTicketStore, sid: &SessionId) -> (res: Result<usize, TicketStoreError>)
    requires
        old(tickets).wf(),
    ensures
        final(tickets).wf(),
        final(tickets).correlations() == old(tickets).correlations(),
        final(tickets).tickets() == Seq::new(
            old(tickets).tickets().len(),
            |i: int| after_orphan_sweep(old(tickets).tickets()[i], sid@),
        ),
        res matches Ok(n) && n == orphan_count(old(tickets).tickets(), sid@),
{
    let ghost ts = tickets.tickets();
    let all = match tickets.list_all() {
        Ok(v) => v,
        Err(e) => {
            return Err(e);
        },
    };
    let mut count: usize = 0;
    let mut i: usize = 0;
    proof {
        lemma_orphan_count_bound(ts, sid@);
    }
    while i < all.len()
        invariant
            ts.len() == all@.len(),
            forall|j: int| 0 <= j < all@.len() ==> #[trigger] all@[j]@ == ts[j],
            crate::persistence::tickets::ids_distinct(ts),
            i <= all@.len(),
            tickets.wf(),
            tickets.correlations() == old(tickets).correlations(),
            ts == old(tickets).tickets(),
            tickets.tickets() == Seq::new(
                ts.len(),
                |j: int| if j < i { after_orphan_sweep(ts[j], sid@) } else { ts[j] },
            ),
            count == orphan_count(ts.take(i as int), sid@),
            orphan_count(ts, sid@) <= ts.len(),
        decreases all@.len() - i,
    {
        let ghost cur = tickets.tickets();
        proof {
            let t = ts.take(i as int + 1);
            assert(t.drop_last() =~= ts.take(i as int));
            assert(t.last() == ts[i as int]);
            assert(all@[i as int]@ == ts[i as int]);
            crate::approvals::sweep::lemma_orphan_count_prefix(ts, sid@, i as int + 1);
        }
        if all[i].session_id.same_as(sid) && all[i].status == TicketStatus::Pending {
            proof {
                assert(cur[i as int].id == ts[i as int].id);
                assert forall|a: int, b: int| 0 <= a < cur.len() && 0 <= b < cur.len() && a != b
                    implies cur[a].id != cur[b].id by {
                    assert(cur[a].id == ts[a].id);
                    assert(cur[b].id == ts[b].id);
                }
                lemma_ticket_index_unique(cur, i as int);
            }
            match tickets.update_status(&all[i].id, TicketStatus::Orphaned) {
                Ok(()) => {},
                Err(e) => {
                    return Err(e);
                },
            }
            count = count + 1;
        }
        i = i + 1;
        proof {
            assert(tickets.tickets() =~= Seq::new(
                ts.len(),
                |j: int| if j < i { after_orphan_sweep(ts[j], sid@) } else { ts[j] },
            ));
        }
    }
    proof {
        assert(ts.take(ts.len() as int) =~= ts);
        assert(tickets.tickets() =~= Seq::new(ts.len(), |j: int| after_orphan_sweep(ts[j], sid@)));
    }
    Ok(count)
}

/// Counting over a prefix never exceeds counting over the whole.
pub proof fn lemma_orphan_count_prefix(ts: Seq<TicketView>, sid: Seq<char>, k: int)
    requires
        0 <= k <= ts.len(),
    ensures
        orphan_count(ts.take(k), sid) <= orphan_count(ts, sid),
    decreases ts.len() - k,
{
    if k < ts.len() {
        lemma_orphan_count_prefix(ts, sid, k + 1);
        assert(ts.take(k + 1).drop_last() =~= ts.take(k));
    } else {
        assert(ts.take(k) =~= ts);
    }
}

} // verus!
