//! In-memory notification store, in recording order.

use vstd::prelude::*;
use crate::notifications::types::{Notification, NotificationId};
use crate::sessions::SessionId;

verus! {

/// Why the notification store refused a record.
#[derive(Debug)]
pub enum NotificationStoreError {
    Duplicate(String),
}

/// Storage of notifications.
pub trait NotificationStore {
    fn record(&mut self, n: Notification) -> Result<(), NotificationStoreError>;

    fn list(&self, since: Option<u64>) -> Result<Vec<Notification>, NotificationStoreError>;

    /// Notifications linked to session `sid`: emitted by it, or referring
    /// to it as session or child session.
    fn list_by_session(&self, sid: &SessionId) -> Result<Vec<Notification>, NotificationStoreError>;
}

/// Notification `n` is linked to session `sid`.
pub open spec fn linked_to(n: Notification, sid: Seq<char>) -> bool {
    ||| n.emitted_by@ == sid
    ||| n.refs.session_id matches Some(s) && s@ == sid
    ||| n.refs.child_session_id matches Some(s) && s@ == sid
}

/// The notifications of `ns` emitted strictly after `t`, in order.
pub open spec fn emitted_after(ns: Seq<Notification>, t: u64) -> Seq<Notification>
    decreases ns.len(),
{
    if ns.len() == 0 {
        Seq::empty()
    } else if ns.last().emitted_at > t {
        emitted_after(ns.drop_last(), t).push(ns.last())
    } else {
        emitted_after(ns.drop_last(), t)
    }
}

/// Notification `n` was emitted strictly after `t`.
pub open spec fn after(t: u64) -> spec_fn(Notification) -> bool {
    |n: Notification| n.emitted_at > t
}

/// The notifications emitted strictly after `t` are the recorded ones kept
/// in order, filtered by emission time.
pub proof fn lemma_emitted_after_filter(ns: Seq<Notification>, t: u64)
    ensures
        emitted_after(ns, t) == ns.filter(after(t)),
    decreases ns.len(),
{
    reveal(Seq::filter);
    if ns.len() > 0 {
        lemma_emitted_after_filter(ns.drop_last(), t);
    }
}

/// Listing after a run of successful records: the records come back after
/// what was stored before, in recording order, and listing since `t` keeps
/// exactly those emitted strictly after `t`, in that order.
pub proof fn lemma_listing_after_records(before: Seq<Notification>, recs: Seq<Notification>, t: u64)
    ensures
        emitted_after(before + recs, t) == emitted_after(before, t) + recs.filter(after(t)),
    decreases recs.len(),
{
    reveal(Seq::filter);
    if recs.len() == 0 {
        assert(before + recs =~= before);
        assert(emitted_after(before, t) + recs.filter(after(t)) =~= emitted_after(before, t));
    } else {
        let r = recs.drop_last();
        lemma_listing_after_records(before, r, t);
        assert((before + recs).drop_last() =~= before + r);
        assert((before + recs).last() == recs.last());
        if recs.last().emitted_at > t {
            assert(emitted_after(before, t) + recs.filter(after(t)) =~= (emitted_after(before, t) + r.filter(
                after(t),
            )).push(recs.last()));
        }
    }
}

/// The notifications of `ns` linked to `sid`, in order.
pub open spec fn linked_notifications(ns: Seq<Notification>, sid: Seq<char>) -> Seq<Notification>
    decreases ns.len(),
{
    if ns.len() == 0 {
        Seq::empty()
    } else if linked_to(ns.last(), sid) {
        linked_notifications(ns.drop_last(), sid).push(ns.last())
    } else {
        linked_notifications(ns.drop_last(), sid)
    }
}

/// The notifications of the process, in recording order.
#[derive(Debug, Default)]
pub struct InMemoryNotificationStore {
    notifications: Vec<Notification>,
}

fn same_session(a: &SessionId, b: &Option<SessionId>) -> (res: bool)
    ensures
        res == (b matches Some(s) && s@ == a@),
{
    match b {
        Some(s) => s.same_as(a),
        None => false,
    }
}

impl InMemoryNotificationStore {
    /// The recorded notifications, oldest first.
    pub closed spec fn all(&self) -> Seq<Notification> {
        self.notifications@
    }

    pub fn new() -> (res: Self)
        ensures
            res.all() == Seq::<Notification>::empty(),
    {
        InMemoryNotificationStore { notifications: Vec::new() }
    }

    /// Appends `n`, unless a notification with its identifier exists.
    pub fn record(&mut self, n: Notification) -> (res: Result<(), NotificationStoreError>)
        ensures
            (exists|i: int| 0 <= i < old(self).all().len() && #[trigger] old(self).all()[i].id.0@ == n.id.0@) ==> (
            res matches Err(NotificationStoreError::Duplicate(d)) && d@ == n.id.0@ && final(self).all() == old(
                self,
            ).all()),
            !(exists|i: int| 0 <= i < old(self).all().len() && #[trigger] old(self).all()[i].id.0@ == n.id.0@) ==> (res
                is Ok && final(self).all() == old(self).all().push(n)),
    {
        let mut i: usize = 0;
        while i < self.notifications.len()
            invariant
                i <= self.notifications@.len(),
                forall|j: int| 0 <= j < i ==> self.notifications@[j].id.0@ != n.id.0@,
            decreases self.notifications@.len() - i,
        {
            if self.notifications[i].id.0 == n.id.0 {
                proof {
                    assert(self.notifications@[i as int].id.0@ == n.id.0@);
                }
                return Err(NotificationStoreError::Duplicate(n.id.0.clone()));
            }
            i = i + 1;
        }
        self.notifications.push(n);
        Ok(())
    }

    /// The notifications emitted strictly after `since` (all of them for
    /// `None`), oldest first.
    pub fn list(&self, since: Option<u64>) -> (res: Result<Vec<Notification>, NotificationStoreError>)
        ensures
            res matches Ok(v) && v@ == match since {
                Some(t) => emitted_after(self.all(), t),
                None => self.all(),
            },
    {
        let ns = &self.notifications;
        let mut out: Vec<Notification> = Vec::new();
        let mut i: usize = 0;
        while i < ns.len()
            invariant
                i <= ns@.len(),
                out@ == match since {
                    Some(t) => emitted_after(ns@.take(i as int), t),
                    None => ns@.take(i as int),
                },
            decreases ns@.len() - i,
        {
            proof {
                let t = ns@.take(i as int + 1);
                assert(t.drop_last() =~= ns@.take(i as int));
                assert(t.last() == ns@[i as int]);
            }
            let keep = match since {
                Some(t) => ns[i].emitted_at > t,
                None => true,
            };
            if keep {
                out.push(ns[i].clone());
            }
            i = i + 1;
            proof {
                if since is None {
                    assert(out@ =~= ns@.take(i as int));
                }
            }
        }
        proof {
            assert(ns@.take(ns@.len() as int) =~= ns@);
        }
        Ok(out)
    }

    /// The notifications linked to session `sid`, oldest first.
    pub fn list_by_session(&self, sid: &SessionId) -> (res: Result<Vec<Notification>, NotificationStoreError>)
        ensures
            res matches Ok(v) && v@ == linked_notifications(self.all(), sid@),
    {
        let ns = &self.notifications;
        let mut out: Vec<Notification> = Vec::new();
        let mut i: usize = 0;
        while i < ns.len()
            invariant
                i <= ns@.len(),
                out@ == linked_notifications(ns@.take(i as int), sid@),
            decreases ns@.len() - i,
        {
            proof {
                let t = ns@.take(i as int + 1);
                assert(t.drop_last() =~= ns@.take(i as int));
                assert(t.last() == ns@[i as int]);
            }
            let n = &ns[i];
            if n.emitted_by.same_as(sid) || same_session(sid, &n.refs.session_id) || same_session(
                sid,
                &n.refs.child_session_id,
            ) {
                out.push(n.clone());
            }
            i = i + 1;
        }
        proof {
            assert(ns@.take(ns@.len() as int) =~= ns@);
        }
        Ok(out)
    }
}

impl NotificationStore for InMemoryNotificationStore {
    fn record(&mut self, n: Notification) -> (res: Result<(), NotificationStoreError>)
        ensures
            (exists|i: int| 0 <= i < old(self).all().len() && #[trigger] old(self).all()[i].id.0@ == n.id.0@) ==> (
            res matches Err(NotificationStoreError::Duplicate(d)) && d@ == n.id.0@ && final(self).all() == old(
                self,
            ).all()),
            !(exists|i: int| 0 <= i < old(self).all().len() && #[trigger] old(self).all()[i].id.0@ == n.id.0@) ==> (res
                is Ok && final(self).all() == old(self).all().push(n)),
    {
        InMemoryNotificationStore::record(self, n)
    }

    fn list(&self, since: Option<u64>) -> (res: Result<Vec<Notification>, NotificationStoreError>)
        ensures
            res matches Ok(v) && v@ == match since {
                Some(t) => emitted_after(self.all(), t),
                None => self.all(),
            },
    {
        InMemoryNotificationStore::list(self, since)
    }

    fn list_by_session(&self, sid: &SessionId) -> (res: Result<Vec<Notification>, NotificationStoreError>)
        ensures
            res matches Ok(v) && v@ == linked_notifications(self.all(), sid@),
    {
        InMemoryNotificationStore::list_by_session(self, sid)
    }
}

} // verus!
