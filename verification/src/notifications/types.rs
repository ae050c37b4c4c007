//! Notification core types. Times are nanoseconds since the Unix epoch.

use vstd::prelude::*;
use crate::approvals::types::TicketId;
use crate::sessions::{SessionId, base36_digits, to_base36};
use crate::text::push_char;

verus! {

/// How urgent a notification is, least to most.
#[derive(Debug, Clone, Copy, PartialEq, Eq, PartialOrd, Ord, Hash, Structural)]
pub enum Severity {
    Info,
    Warn,
    Error,
    Blocker,
}

/// The rank of a severity: `Info < Warn < Error < Blocker`.
pub open spec fn severity_rank(s: Severity) -> int {
    match s {
        Severity::Info => 0,
        Severity::Warn => 1,
        Severity::Error => 2,
        Severity::Blocker => 3,
    }
}

/// The rank of a severity, as its declaration order gives it.
pub fn severity_level(s: Severity) -> (res: u8)
    ensures
        res == severity_rank(s),
{
    match s {
        Severity::Info => 0,
        Severity::Warn => 1,
        Severity::Error => 2,
        Severity::Blocker => 3,
    }
}

/// `a` is more urgent than `b`.
pub fn more_severe(a: Severity, b: Severity) -> (res: bool)
    ensures
        res == (severity_rank(a) > severity_rank(b)),
{
    severity_level(a) > severity_level(b)
}

/// Identifier of a notification.
#[derive(Debug, PartialEq, Eq, Hash)]
pub struct NotificationId(pub String);

impl Clone for NotificationId {
    fn clone(&self) -> (res: Self)
        ensures
            res == *self,
    {
        NotificationId(self.0.clone())
    }
}

/// `n_<base36 counter>`.
pub open spec fn notification_id_text(n: nat) -> Seq<char> {
    seq!['n', '_'] + base36_digits(n)
}

/// Sequential identifier generator: `n_<base36 counter>`.
#[derive(Debug, Default)]
pub struct NotificationIdGenerator {
    counter: u64,
}

impl NotificationIdGenerator {
    /// The counter the next identifier is minted from.
    pub closed spec fn next_counter(&self) -> u64 {
        self.counter
    }

    pub fn new() -> (res: Self)
        ensures
            res.next_counter() == 0,
    {
        NotificationIdGenerator { counter: 0 }
    }

    /// Mints the next identifier and advances the counter (wrapping at
    /// `u64::MAX`, as an atomic `fetch_add` does).
    pub fn next(&mut self) -> (res: NotificationId)
        ensures
            res.0@ == notification_id_text(old(self).next_counter() as nat),
            final(self).next_counter() == old(self).next_counter().wrapping_add(1),
    {
        let n = self.counter;
        self.counter = self.counter.wrapping_add(1);
        let mut s = String::new();
        push_char(&mut s, 'n');
        push_char(&mut s, '_');
        let digits = base36(n);
        s.append(digits.as_str());
        NotificationId(s)
    }
}

/// Base-36 rendering of `n` with the alphabet `0-9a-z`.
pub fn base36(n: u64) -> (res: String)
    ensures
        res@ == base36_digits(n as nat),
{
    to_base36(n)
}

/// Identifiers minted from distinct counter values are distinct.
pub proof fn lemma_notification_ids_distinct(a: u64, b: u64)
    requires
        a != b,
    ensures
        notification_id_text(a as nat) != notification_id_text(b as nat),
{
    crate::sessions::lemma_base36_injective(a as nat, b as nat);
    if notification_id_text(a as nat) == notification_id_text(b as nat) {
        assert(notification_id_text(a as nat).skip(2) =~= base36_digits(a as nat));
        assert(notification_id_text(b as nat).skip(2) =~= base36_digits(b as nat));
    }
}

/// What a notification is about.
#[derive(Debug)]
pub struct NotificationRefs {
    pub session_id: Option<SessionId>,
    pub ticket_id: Option<TicketId>,
    pub child_session_id: Option<SessionId>,
}

impl Default for NotificationRefs {
    fn default() -> (res: Self)
        ensures
            res.session_id is None,
            res.ticket_id is None,
            res.child_session_id is None,
    {
        NotificationRefs { session_id: None, ticket_id: None, child_session_id: None }
    }
}

impl Clone for NotificationRefs {
    fn clone(&self) -> (res: Self)
        ensures
            res == *self,
    {
        NotificationRefs {
            session_id: match &self.session_id {
                Some(s) => Some(s.clone()),
                None => None,
            },
            ticket_id: match &self.ticket_id {
                Some(t) => Some(t.clone()),
                None => None,
            },
            child_session_id: match &self.child_session_id {
                Some(s) => Some(s.clone()),
                None => None,
            },
        }
    }
}

/// A notification to the human.
#[derive(Debug)]
pub struct Notification {
    pub id: NotificationId,
    pub severity: Severity,
    pub subject: String,
    pub body: String,
    pub refs: NotificationRefs,
    pub emitted_by: SessionId,
    /// Nanoseconds since the Unix epoch.
    pub emitted_at: u64,
}

impl Clone for Notification {
    fn clone(&self) -> (res: Self)
        ensures
            res == *self,
    {
        Notification {
            id: self.id.clone(),
            severity: self.severity,
            subject: self.subject.clone(),
            body: self.body.clone(),
            refs: self.refs.clone(),
            emitted_by: self.emitted_by.clone(),
            emitted_at: self.emitted_at,
        }
    }
}

} // verus!
