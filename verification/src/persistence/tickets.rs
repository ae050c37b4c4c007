//! Ticket persistence: the in-memory ticket table and its correlation index.
//!
//! Tickets are kept in creation order; listing returns them in that order.
//! A key index finds a ticket by identifier, and another finds the last
//! record of a correlation key.

use vstd::prelude::*;
use crate::approvals::types::{Decision, Ticket, TicketId, TicketStatus, TicketView, decision_view};
use crate::persistence::index::{KeyIndex, index_entries, index_get, index_insert, index_new};
use crate::sessions::SessionId;

verus! {

/// Why a ticket-store operation failed.
#[derive(Debug)]
pub enum TicketStoreError {
    NotFound(TicketId),
    Duplicate(TicketId),
}

/// Index of the ticket with identifier `id`, if any.
pub open spec fn ticket_index(ts: Seq<TicketView>, id: Seq<char>) -> Option<int>
    decreases ts.len(),
{
    if ts.len() == 0 {
        None
    } else if ts.last().id == id {
        Some(ts.len() - 1)
    } else {
        ticket_index(ts.drop_last(), id)
    }
}

/// The identifier that correlation key `key` was last recorded for.
pub open spec fn correlation_lookup(cs: Seq<(Seq<char>, Seq<char>)>, key: Seq<char>) -> Option<Seq<char>>
    decreases cs.len(),
{
    if cs.len() == 0 {
        None
    } else if cs.last().0 == key {
        Some(cs.last().1)
    } else {
        correlation_lookup(cs.drop_last(), key)
    }
}

/// Position of the last record of correlation key `key`, if any.
pub open spec fn correlation_index(cs: Seq<(Seq<char>, Seq<char>)>, key: Seq<char>) -> Option<int>
    decreases cs.len(),
{
    if cs.len() == 0 {
        None
    } else if cs.last().0 == key {
        Some(cs.len() - 1)
    } else {
        correlation_index(cs.drop_last(), key)
    }
}

/// The identifier a key leads to is the one at its last record.
proof fn lemma_correlation_index(cs: Seq<(Seq<char>, Seq<char>)>, key: Seq<char>)
    ensures
        match correlation_index(cs, key) {
            Some(i) => 0 <= i < cs.len() && cs[i].0 == key && correlation_lookup(cs, key) == Some(cs[i].1),
            None => correlation_lookup(cs, key) is None,
        },
    decreases cs.len(),
{
    if cs.len() > 0 && cs.last().0 != key {
        lemma_correlation_index(cs.drop_last(), key);
    }
}

/// The tickets of `ts` owned by session `sid`, in their order.
pub open spec fn session_tickets(ts: Seq<TicketView>, sid: Seq<char>) -> Seq<TicketView>
    decreases ts.len(),
{
    if ts.len() == 0 {
        Seq::empty()
    } else if ts.last().session_id == sid {
        session_tickets(ts.drop_last(), sid).push(ts.last())
    } else {
        session_tickets(ts.drop_last(), sid)
    }
}

/// No two tickets share an identifier.
pub open spec fn ids_distinct(ts: Seq<TicketView>) -> bool {
    forall|i: int, j: int| 0 <= i < ts.len() && 0 <= j < ts.len() && i != j ==> ts[i].id != ts[j].id
}

/// The ticket that correlation key `key` leads to, if any.
pub open spec fn existing_for(ts: Seq<TicketView>, cs: Seq<(Seq<char>, Seq<char>)>, key: Seq<char>) -> Option<TicketView> {
    match correlation_lookup(cs, key) {
        Some(id) => match ticket_index(ts, id) {
            Some(i) => Some(ts[i]),
            None => None,
        },
        None => None,
    }
}

/// `ticket_index` names a position with the identifier, or no ticket has it.
pub proof fn lemma_ticket_index(ts: Seq<TicketView>, id: Seq<char>)
    ensures
        match ticket_index(ts, id) {
            Some(i) => 0 <= i < ts.len() && ts[i].id == id,
            None => forall|j: int| 0 <= j < ts.len() ==> ts[j].id != id,
        },
    decreases ts.len(),
{
    if ts.len() > 0 {
        lemma_ticket_index(ts.drop_last(), id);
        if ts.last().id != id {
            assert forall|j: int| 0 <= j < ts.len() - 1 implies ts[j] == ts.drop_last()[j] by {}
        }
    }
}

/// With distinct identifiers, the ticket at index `i` is the one found for its id.
pub proof fn lemma_ticket_index_unique(ts: Seq<TicketView>, i: int)
    requires
        ids_distinct(ts),
        0 <= i < ts.len(),
    ensures
        ticket_index(ts, ts[i].id) == Some(i),
{
    lemma_ticket_index(ts, ts[i].id);
}

/// `ticket_index` looks at identifiers only.
proof fn lemma_ticket_index_same_ids(a: Seq<TicketView>, b: Seq<TicketView>, id: Seq<char>)
    requires
        a.len() == b.len(),
        forall|i: int| 0 <= i < a.len() ==> a[i].id == b[i].id,
    ensures
        ticket_index(a, id) == ticket_index(b, id),
    decreases a.len(),
{
    if a.len() > 0 {
        assert(a.last().id == b.last().id);
        lemma_ticket_index_same_ids(a.drop_last(), b.drop_last(), id);
    }
}

/// The in-memory ticket table.
pub struct InMemoryTicketStore {
    tickets: Vec<Ticket>,
    by_id: KeyIndex,
    by_correlation: Vec<(String, TicketId)>,
    by_key: KeyIndex,
}

impl InMemoryTicketStore {
    /// The stored tickets, in creation order.
    pub closed spec fn tickets(&self) -> Seq<TicketView> {
        Seq::new(self.tickets@.len(), |i: int| self.tickets@[i]@)
    }

    /// The correlation index: `(key, ticket id)` in recording order.
    pub closed spec fn correlations(&self) -> Seq<(Seq<char>, Seq<char>)> {
        Seq::new(self.by_correlation@.len(), |i: int| (self.by_correlation@[i].0@, self.by_correlation@[i].1@))
    }

    /// The indexes hold the position of each ticket identifier and of the
    /// last record of each correlation key.
    pub closed spec fn indexed(&self) -> bool {
        &&& forall|k: Seq<char>| #[trigger] index_entries(self.by_id).contains_key(k) == ticket_index(
            self.tickets(),
            k,
        ) is Some
        &&& forall|k: Seq<char>| #[trigger] index_entries(self.by_id).contains_key(k) ==> ticket_index(
            self.tickets(),
            k,
        ) == Some(index_entries(self.by_id)[k] as int)
        &&& forall|k: Seq<char>| #[trigger] index_entries(self.by_key).contains_key(k) == correlation_index(
            self.correlations(),
            k,
        ) is Some
        &&& forall|k: Seq<char>| #[trigger] index_entries(self.by_key).contains_key(k) ==> correlation_index(
            self.correlations(),
            k,
        ) == Some(index_entries(self.by_key)[k] as int)
    }

    /// Well-formedness: ticket identifiers are distinct and indexed.
    pub open spec fn wf(&self) -> bool {
        &&& ids_distinct(self.tickets())
        &&& self.indexed()
    }

    pub fn new() -> (res: Self)
        ensures
            res.wf(),
            res.tickets() == Seq::<TicketView>::empty(),
            res.correlations() == Seq::<(Seq<char>, Seq<char>)>::empty(),
    {
        let res = InMemoryTicketStore {
            tickets: Vec::new(),
            by_id: index_new(),
            by_correlation: Vec::new(),
            by_key: index_new(),
        };
        proof {
            assert(res.tickets() =~= Seq::<TicketView>::empty());
            assert(res.correlations() =~= Seq::<(Seq<char>, Seq<char>)>::empty());
        }
        res
    }

    /// Position of the ticket with identifier `id`.
    fn position(&self, id: &TicketId) -> (res: Option<usize>)
        requires
            self.wf(),
        ensures
            match res {
                Some(i) => ticket_index(self.tickets(), id@) == Some(i as int) && i < self.tickets@.len(),
                None => ticket_index(self.tickets(), id@) is None,
            },
    {
        let r = index_get(&self.by_id, id.0.as_str());
        proof {
            lemma_ticket_index(self.tickets(), id@);
        }
        r
    }

    /// Stores a new ticket and records `correlation_key` for it. Fails with
    /// `Duplicate` when a ticket with the same identifier exists.
    pub fn create(&mut self, t: Ticket, correlation_key: &str) -> (res: Result<(), TicketStoreError>)
        requires
            old(self).wf(),
        ensures
            final(self).wf(),
            match res {
                Ok(()) => {
                    &&& ticket_index(old(self).tickets(), t@.id) is None
                    &&& final(self).tickets() == old(self).tickets().push(t@)
                    &&& final(self).correlations() == old(self).correlations().push((correlation_key@, t@.id))
                },
                Err(TicketStoreError::Duplicate(id)) => {
                    &&& ticket_index(old(self).tickets(), t@.id) is Some
                    &&& id@ == t@.id
                    &&& *final(self) == *old(self)
                },
                Err(TicketStoreError::NotFound(_)) => false,
            },
    {
        match self.position(&t.id) {
            Some(_) => {
                return Err(TicketStoreError::Duplicate(t.id.clone()));
            },
            None => {},
        }
        let ghost old_ts = self.tickets();
        let ghost old_cs = self.correlations();
        let ghost old_ids = index_entries(self.by_id);
        let ghost old_keys = index_entries(self.by_key);
        proof {
            lemma_ticket_index(old_ts, t@.id);
        }
        let ticket_pos = self.tickets.len();
        let key_pos = self.by_correlation.len();
        index_insert(&mut self.by_id, t.id.0.clone(), ticket_pos);
        index_insert(&mut self.by_key, correlation_key.to_owned(), key_pos);
        self.by_correlation.push((correlation_key.to_owned(), t.id.clone()));
        self.tickets.push(t);
        proof {
            assert(self.tickets() =~= old_ts.push(t@));
            assert(self.correlations() =~= old_cs.push((correlation_key@, t@.id)));
            let ts = self.tickets();
            let cs = self.correlations();
            assert(ts.drop_last() =~= old_ts);
            assert(cs.drop_last() =~= old_cs);
            assert forall|k: Seq<char>| #[trigger] index_entries(self.by_id).contains_key(k) == ticket_index(ts, k) is Some
                && (index_entries(self.by_id).contains_key(k) ==> ticket_index(ts, k) == Some(
                index_entries(self.by_id)[k] as int,
            )) by {
                if k != t@.id {
                    assert(ticket_index(ts, k) == ticket_index(old_ts, k));
                }
            }
            assert forall|k: Seq<char>| #[trigger] index_entries(self.by_key).contains_key(k) == correlation_index(cs, k)
                is Some && (index_entries(self.by_key).contains_key(k) ==> correlation_index(cs, k) == Some(
                index_entries(self.by_key)[k] as int,
            )) by {
                if k != correlation_key@ {
                    assert(correlation_index(cs, k) == correlation_index(old_cs, k));
                }
            }
        }
        Ok(())
    }

    /// A copy of the ticket with identifier `id`.
    pub fn get(&self, id: &TicketId) -> (res: Result<Option<Ticket>, TicketStoreError>)
        requires
            self.wf(),
        ensures
            match res {
                Ok(Some(t)) => ticket_index(self.tickets(), id@) matches Some(i) && t@ == self.tickets()[i],
                Ok(None) => ticket_index(self.tickets(), id@) is None,
                Err(_) => false,
            },
    {
        match self.position(id) {
            Some(i) => {
                proof {
                    lemma_ticket_index(self.tickets(), id@);
                }
                Ok(Some(self.tickets[i].clone()))
            },
            None => Ok(None),
        }
    }

    /// The ticket that `key` was last recorded for.
    pub fn find_by_correlation(&self, key: &str) -> (res: Result<Option<Ticket>, TicketStoreError>)
        requires
            self.wf(),
        ensures
            match res {
                Ok(Some(t)) => existing_for(self.tickets(), self.correlations(), key@) == Some(t@),
                Ok(None) => existing_for(self.tickets(), self.correlations(), key@) is None,
                Err(_) => false,
            },
    {
        proof {
            lemma_correlation_index(self.correlations(), key@);
        }
        match index_get(&self.by_key, key) {
            Some(p) => {
                let r = self.get(&self.by_correlation[p].1);
                proof {
                    lemma_ticket_index(self.tickets(), self.by_correlation@[p as int].1@);
                }
                r
            },
            None => Ok(None),
        }
    }

    /// Copies of the tickets owned by session `sid`, in creation order.
    pub fn list_by_session(&self, sid: &SessionId) -> (res: Result<Vec<Ticket>, TicketStoreError>)
        ensures
            res is Ok,
            Seq::new(res->Ok_0@.len(), |i: int| res->Ok_0@[i]@) == session_tickets(self.tickets(), sid@),
    {
        let ghost ts = self.tickets();
        let mut out: Vec<Ticket> = Vec::new();
        let mut i: usize = 0;
        while i < self.tickets.len()
            invariant
                i <= self.tickets@.len(),
                ts == self.tickets(),
                Seq::new(out@.len(), |j: int| out@[j]@) == session_tickets(ts.take(i as int), sid@),
            decreases self.tickets@.len() - i,
        {
            let ghost before = Seq::new(out@.len(), |j: int| out@[j]@);
            proof {
                let t = ts.take(i as int + 1);
                assert(t.drop_last() =~= ts.take(i as int));
                assert(t.last() == self.tickets@[i as int]@);
            }
            if self.tickets[i].session_id.same_as(sid) {
                out.push(self.tickets[i].clone());
                proof {
                    assert(Seq::new(out@.len(), |j: int| out@[j]@) =~= before.push(self.tickets@[i as int]@));
                }
            }
            i = i + 1;
        }
        proof {
            assert(ts.take(self.tickets@.len() as int) =~= ts);
        }
        Ok(out)
    }

    /// Copies of all tickets, in creation order.
    pub fn list_all(&self) -> (res: Result<Vec<Ticket>, TicketStoreError>)
        ensures
            res is Ok,
            Seq::new(res->Ok_0@.len(), |i: int| res->Ok_0@[i]@) == self.tickets(),
    {
        let mut out: Vec<Ticket> = Vec::new();
        let mut i: usize = 0;
        while i < self.tickets.len()
            invariant
                i <= self.tickets@.len(),
                Seq::new(out@.len(), |j: int| out@[j]@) == self.tickets().take(i as int),
            decreases self.tickets@.len() - i,
        {
            let ghost before = Seq::new(out@.len(), |j: int| out@[j]@);
            let t = self.tickets[i].clone();
            out.push(t);
            proof {
                assert(Seq::new(out@.len(), |j: int| out@[j]@) =~= before.push(self.tickets@[i as int]@));
                assert(self.tickets().take(i as int + 1) =~= self.tickets().take(i as int).push(self.tickets@[i as int]@));
            }
            i = i + 1;
        }
        proof {
            assert(self.tickets().take(self.tickets@.len() as int) =~= self.tickets());
        }
        Ok(out)
    }

    /// Sets the status of ticket `id`.
    pub fn update_status(&mut self, id: &TicketId, status: TicketStatus) -> (res: Result<(), TicketStoreError>)
        requires
            old(self).wf(),
        ensures
            final(self).wf(),
            final(self).correlations() == old(self).correlations(),
            match ticket_index(old(self).tickets(), id@) {
                Some(i) => res is Ok && final(self).tickets() == old(self).tickets().update(
                    i,
                    TicketView { status, ..old(self).tickets()[i] },
                ),
                None => res matches Err(TicketStoreError::NotFound(e)) && e@ == id@
                    && final(self).tickets() == old(self).tickets(),
            },
    {
        match self.position(id) {
            Some(i) => {
                proof {
                    lemma_ticket_index(self.tickets(), id@);
                }
                let ghost old_ts = self.tickets();
                let mut t = self.tickets[i].clone();
                t.status = status;
                self.tickets.set(i, t);
                proof {
                    assert(self.tickets() =~= old_ts.update(i as int, TicketView { status, ..old_ts[i as int] }));
                    assert forall|k: Seq<char>| #[trigger] ticket_index(self.tickets(), k) == ticket_index(old_ts, k) by {
                        lemma_ticket_index_same_ids(self.tickets(), old_ts, k);
                    }
                    assert forall|a: int, b: int| 0 <= a < self.tickets().len() && 0 <= b < self.tickets().len() && a != b
                        implies self.tickets()[a].id != self.tickets()[b].id by {
                        assert(old_ts[a].id == self.tickets()[a].id);
                        assert(old_ts[b].id == self.tickets()[b].id);
                    }
                }
                Ok(())
            },
            None => Err(TicketStoreError::NotFound(id.clone())),
        }
    }

    /// Records `decision` on ticket `id`, decided at time `decided_at`.
    pub fn record_decision(&mut self, id: &TicketId, decision: Decision, decided_at: u64) -> (res: Result<(), TicketStoreError>)
        requires
            old(self).wf(),
        ensures
            final(self).wf(),
            final(self).correlations() == old(self).correlations(),
            match ticket_index(old(self).tickets(), id@) {
                Some(i) => res is Ok && final(self).tickets() == old(self).tickets().update(
                    i,
                    TicketView {
                        decision: Some(decision_view(decision)),
                        decided_at: Some(decided_at),
                        ..old(self).tickets()[i]
                    },
                ),
                None => res matches Err(TicketStoreError::NotFound(e)) && e@ == id@
                    && final(self).tickets() == old(self).tickets(),
            },
    {
        match self.position(id) {
            Some(i) => {
                proof {
                    lemma_ticket_index(self.tickets(), id@);
                }
                let ghost old_ts = self.tickets();
                let ghost dv = decision_view(decision);
                let mut t = self.tickets[i].clone();
                t.decision = Some(decision);
                t.decided_at = Some(decided_at);
                self.tickets.set(i, t);
                proof {
                    assert(self.tickets() =~= old_ts.update(
                        i as int,
                        TicketView { decision: Some(dv), decided_at: Some(decided_at), ..old_ts[i as int] },
                    ));
                    assert forall|k: Seq<char>| #[trigger] ticket_index(self.tickets(), k) == ticket_index(old_ts, k) by {
                        lemma_ticket_index_same_ids(self.tickets(), old_ts, k);
                    }
                    assert forall|a: int, b: int| 0 <= a < self.tickets().len() && 0 <= b < self.tickets().len() && a != b
                        implies self.tickets()[a].id != self.tickets()[b].id by {
                        assert(old_ts[a].id == self.tickets()[a].id);
                        assert(old_ts[b].id == self.tickets()[b].id);
                    }
                }
                Ok(())
            },
            None => Err(TicketStoreError::NotFound(id.clone())),
        }
    }
}

} // verus!
