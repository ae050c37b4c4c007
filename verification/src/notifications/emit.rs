//! `emit_notification`: build, log, store. Synchronous and fire-and-forget:
//! it neither blocks nor touches inboxes or session state.

use vstd::prelude::*;
use crate::notifications::types::{
    Notification, NotificationId, NotificationIdGenerator, NotificationRefs, Severity, notification_id_text,
};
use crate::persistence::notifications::{InMemoryNotificationStore, NotificationStoreError};
use crate::sessions::SessionId;

verus! {

/// What a notification is built from.
pub struct EmitArgs {
    pub severity: Severity,
    pub subject: String,
    pub body: String,
    pub refs: NotificationRefs,
    pub emitted_by: SessionId,
}

/// Why emitting failed.
#[derive(Debug)]
pub enum NotifyError {
    Store(NotificationStoreError),
}

/// The level a notification is logged at.
#[derive(Debug, Clone, Copy, PartialEq, Eq, Structural)]
pub enum LogLevel {
    Info,
    Warn,
    Error,
}

/// The log event of a notification: its level, whether it is a blocker, and
/// the message (the body, prefixed `[BLOCKER] ` for blockers).
#[derive(Debug)]
pub struct NotificationLog {
    pub level: LogLevel,
    pub blocker: bool,
    pub message: String,
}

/// The level a severity is logged at.
pub open spec fn level_of(s: Severity) -> LogLevel {
    match s {
        Severity::Info => LogLevel::Info,
        Severity::Warn => LogLevel::Warn,
        Severity::Error => LogLevel::Error,
        Severity::Blocker => LogLevel::Error,
    }
}

/// The log event of notification `n`.
pub fn notification_log(n: &Notification) -> (res: NotificationLog)
    ensures
        res.level == level_of(n.severity),
        res.blocker == (n.severity == Severity::Blocker),
        res.message@ == if n.severity == Severity::Blocker {
            "[BLOCKER] "@ + n.body@
        } else {
            n.body@
        },
{
    match n.severity {
        Severity::Info => NotificationLog { level: LogLevel::Info, blocker: false, message: n.body.clone() },
        Severity::Warn => NotificationLog { level: LogLevel::Warn, blocker: false, message: n.body.clone() },
        Severity::Error => NotificationLog { level: LogLevel::Error, blocker: false, message: n.body.clone() },
        Severity::Blocker => {
            let mut m = String::new();
            m.append("[BLOCKER] ");
            m.append(n.body.as_str());
            NotificationLog { level: LogLevel::Error, blocker: true, message: m }
        },
    }
}

/// The notification `args` become under identifier `id` at time `now`.
pub open spec fn built(args: EmitArgs, id: NotificationId, now: u64) -> Notification {
    Notification {
        id,
        severity: args.severity,
        subject: args.subject,
        body: args.body,
        refs: args.refs,
        emitted_by: args.emitted_by,
        emitted_at: now,
    }
}

/// Builds the notification with the next identifier and time `now`,
/// stores it, and returns it with its identifier.
pub fn emit_notification_at(
    store: &mut InMemoryNotificationStore,
    idgen: &mut NotificationIdGenerator,
    args: EmitArgs,
    now: u64,
) -> (res: Result<(NotificationId, Notification), NotifyError>)
    ensures
        final(idgen).next_counter() == old(idgen).next_counter().wrapping_add(1),
        match res {
            Ok((id, n)) => {
                &&& id.0@ == notification_id_text(old(idgen).next_counter() as nat)
                &&& n == built(args, id, now)
                &&& final(store).all() == old(store).all().push(n)
                &&& !(exists|i: int| 0 <= i < old(store).all().len() && #[trigger] old(store).all()[i].id.0@ == id.0@)
            },
            Err(NotifyError::Store(NotificationStoreError::Duplicate(d))) => {
                &&& d@ == notification_id_text(old(idgen).next_counter() as nat)
                &&& exists|i: int| 0 <= i < old(store).all().len() && #[trigger] old(store).all()[i].id.0@ == d@
                &&& final(store).all() == old(store).all()
            },
        },
{
    let id = idgen.next();
    let n = Notification {
        id: id.clone(),
        severity: args.severity,
        subject: args.subject,
        body: args.body,
        refs: args.refs,
        emitted_by: args.emitted_by,
        emitted_at: now,
    };
    let copy = n.clone();
    match store.record(n) {
        Ok(()) => Ok((id, copy)),
        Err(e) => Err(NotifyError::Store(e)),
    }
}

/// Nanoseconds since the Unix epoch, from `std::time::SystemTime::now`.
/// Nothing is promised of the value: it is the wall clock.
#[verifier::external_body]
fn wall_clock_nanos() -> (res: u64) {
    let d = std::time::SystemTime::now().duration_since(std::time::UNIX_EPOCH).unwrap_or_default();
    u64::try_from(d.as_nanos()).unwrap_or(u64::MAX)
}

/// Builds the notification at the current wall-clock time and stores it;
/// returns its identifier. See [`emit_notification_at`].
pub fn emit_notification(
    store: &mut InMemoryNotificationStore,
    idgen: &mut NotificationIdGenerator,
    args: EmitArgs,
) -> (res: Result<NotificationId, NotifyError>)
    ensures
        final(idgen).next_counter() == old(idgen).next_counter().wrapping_add(1),
        match res {
            Ok(id) => {
                &&& id.0@ == notification_id_text(old(idgen).next_counter() as nat)
                &&& final(store).all().len() == old(store).all().len() + 1
                &&& final(store).all().drop_last() == old(store).all()
                &&& exists|now: u64| final(store).all().last() == #[trigger] built(args, id, now)
                &&& !(exists|i: int| 0 <= i < old(store).all().len() && #[trigger] old(store).all()[i].id.0@ == id.0@)
            },
            Err(NotifyError::Store(NotificationStoreError::Duplicate(d))) => {
                &&& d@ == notification_id_text(old(idgen).next_counter() as nat)
                &&& exists|i: int| 0 <= i < old(store).all().len() && #[trigger] old(store).all()[i].id.0@ == d@
                &&& final(store).all() == old(store).all()
            },
        },
{
    let now = wall_clock_nanos();
    match emit_notification_at(store, idgen, args, now) {
        Ok((id, n)) => {
            proof {
                assert(store.all().drop_last() =~= old(store).all());
            }
            Ok(id)
        },
        Err(e) => Err(e),
    }
}

} // verus!
