//! `notify_human`: the agent-facing entry point of notifications. It checks
//! the arguments and emits a notification for the calling session.

use vstd::prelude::*;
use vstd::utf8::encode_utf8;
use crate::notifications::emit::{EmitArgs, NotifyError, built, emit_notification};
use crate::notifications::types::{NotificationIdGenerator, NotificationRefs, Severity, notification_id_text};
use crate::persistence::notifications::{InMemoryNotificationStore, NotificationStoreError};
use crate::sessions::SessionId;
use crate::text::{is_white_space, to_chars, white_space};

verus! {

/// Hard cap on the body size in bytes: 64 KiB.
pub const BODY_MAX_BYTES: usize = 65536;

/// Why a `notify_human` call was refused.
#[derive(Debug)]
pub enum NotifyHumanError {
    EmptySubject,
    BodyTooLarge,
    Emit(NotifyError),
}

/// Arguments of `notify_human`.
#[derive(Debug)]
pub struct NotifyHumanArgs {
    pub severity: Severity,
    pub subject: String,
    pub body: String,
    pub refs: NotificationRefs,
}

#[derive(Debug)]
pub struct NotifyHumanResult {
    pub notification_id: String,
}

/// `notify_human`, acting for the session it was built for.
pub struct NotifyHumanTool {
    pub caller_session_id: SessionId,
}

/// `s` is empty once surrounding white space is trimmed.
pub open spec fn blank(s: Seq<char>) -> bool {
    forall|i: int| 0 <= i < s.len() ==> is_white_space(#[trigger] s[i])
}

/// Whether `s` holds nothing but white space.
pub fn is_blank(s: &str) -> (res: bool)
    ensures
        res == blank(s@),
{
    let cs = to_chars(s);
    let mut i: usize = 0;
    while i < cs.len()
        invariant
            cs@ == s@,
            i <= cs@.len(),
            forall|j: int| 0 <= j < i ==> is_white_space(#[trigger] s@[j]),
        decreases cs@.len() - i,
    {
        if !white_space(cs[i]) {
            return false;
        }
        i = i + 1;
    }
    true
}

impl NotifyHumanTool {
    /// Refuses a blank subject and a body over [`BODY_MAX_BYTES`] bytes of
    /// UTF-8; otherwise emits the notification for the calling session.
    pub fn call(
        &self,
        store: &mut InMemoryNotificationStore,
        idgen: &mut NotificationIdGenerator,
        args: NotifyHumanArgs,
    ) -> (res: Result<NotifyHumanResult, NotifyHumanError>)
        ensures
            blank(args.subject@) ==> (res matches Err(NotifyHumanError::EmptySubject) && final(store).all() == old(
                store,
            ).all() && final(idgen).next_counter() == old(idgen).next_counter()),
            !blank(args.subject@) && encode_utf8(args.body@).len() > BODY_MAX_BYTES ==> (res matches Err(
                NotifyHumanError::BodyTooLarge,
            ) && final(store).all() == old(store).all() && final(idgen).next_counter() == old(idgen).next_counter()),
            !blank(args.subject@) && encode_utf8(args.body@).len() <= BODY_MAX_BYTES ==> {
                &&& final(idgen).next_counter() == old(idgen).next_counter().wrapping_add(1)
                &&& match res {
                    Ok(r) => {
                        &&& r.notification_id@ == notification_id_text(old(idgen).next_counter() as nat)
                        &&& final(store).all().drop_last() == old(store).all()
                        &&& final(store).all().len() == old(store).all().len() + 1
                        &&& final(store).all().last().id.0@ == r.notification_id@
                        &&& final(store).all().last().severity == args.severity
                        &&& final(store).all().last().subject == args.subject
                        &&& final(store).all().last().body == args.body
                        &&& final(store).all().last().refs == args.refs
                        &&& final(store).all().last().emitted_by == self.caller_session_id
                        &&& !(exists|i: int| 0 <= i < old(store).all().len() && #[trigger] old(store).all()[i].id.0@
                            == r.notification_id@)
                    },
                    Err(NotifyHumanError::Emit(NotifyError::Store(NotificationStoreError::Duplicate(d)))) => {
                        &&& d@ == notification_id_text(old(idgen).next_counter() as nat)
                        &&& exists|i: int| 0 <= i < old(store).all().len() && #[trigger] old(store).all()[i].id.0@ == d@
                        &&& final(store).all() == old(store).all()
                    },
                    Err(_) => false,
                }
            },
    {
        if is_blank(args.subject.as_str()) {
            return Err(NotifyHumanError::EmptySubject);
        }
        if args.body.as_str().as_bytes().len() > BODY_MAX_BYTES {
            return Err(NotifyHumanError::BodyTooLarge);
        }
        let e = EmitArgs {
            severity: args.severity,
            subject: args.subject,
            body: args.body,
            refs: args.refs,
            emitted_by: self.caller_session_id.clone(),
        };
        match emit_notification(store, idgen, e) {
            Ok(id) => Ok(NotifyHumanResult { notification_id: id.0 }),
            Err(err) => Err(NotifyHumanError::Emit(err)),
        }
    }
}

} // verus!
