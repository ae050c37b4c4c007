//! In-memory session store and inbox.
//!
//! Single-process; sessions do not survive a restart. Change notifications
//! are queued as [`SessionEvent`]s for the caller to fan out.

use vstd::prelude::*;
use crate::inbox::{SystemMsg, SystemMsgView};
use crate::persistence::{SessionEvent, TerminalOutcome, key_index, keys_distinct, lemma_key_index};
use crate::persistence::index::{
    KeyIndex, index_entries, index_get, index_insert, index_new, indexes, lemma_indexes_empty, lemma_indexes_push,
};
use crate::sessions::{
    Principal, Session, SessionError, SessionId, SessionIdGenerator, SessionStatus, SessionView, Wait,
    WaitRef, WaitRefKind, WaitView, clone_waits, no_duplicates, session_id_text, transition_allowed,
    wait_ref_of,
};

verus! {

/// The identifiers of `ss`, in order.
pub open spec fn session_ids(ss: Seq<SessionView>) -> Seq<Seq<char>> {
    Seq::new(ss.len(), |i: int| ss[i].id)
}

/// The session stored under `id`, if any.
pub open spec fn find_session(ss: Seq<SessionView>, id: Seq<char>) -> Option<SessionView> {
    match key_index(session_ids(ss), id) {
        Some(i) => Some(ss[i]),
        None => None,
    }
}

/// `ss` with `s` stored under its identifier: replacing the session with
/// the same identifier, or appended.
pub open spec fn put_session(ss: Seq<SessionView>, s: SessionView) -> Seq<SessionView> {
    match key_index(session_ids(ss), s.id) {
        Some(i) => ss.update(i, s),
        None => ss.push(s),
    }
}

/// The sessions of `ss` that are still active, in order.
pub open spec fn active_sessions(ss: Seq<SessionView>) -> Seq<SessionView>
    decreases ss.len(),
{
    if ss.len() == 0 {
        Seq::empty()
    } else if ss.last().status == SessionStatus::Active {
        active_sessions(ss.drop_last()).push(ss.last())
    } else {
        active_sessions(ss.drop_last())
    }
}

/// `ws` with `w` added unless already present.
pub open spec fn insert_wait(ws: Seq<WaitView>, w: WaitView) -> Seq<WaitView> {
    if ws.contains(w) {
        ws
    } else {
        ws.push(w)
    }
}

/// `ws` without `w`.
pub open spec fn remove_wait_spec(ws: Seq<WaitView>, w: WaitView) -> Seq<WaitView> {
    if ws.contains(w) {
        ws.remove(ws.index_of(w))
    } else {
        ws
    }
}

/// The status a terminal outcome moves a session to.
pub open spec fn terminal_status(o: TerminalOutcome) -> SessionStatus {
    match o {
        TerminalOutcome::Done => SessionStatus::Done,
        TerminalOutcome::Abandoned(_) => SessionStatus::Abandoned,
    }
}

/// Position of a wait equal to `w` in `ws`.
fn wait_position(ws: &Vec<Wait>, w: &Wait) -> (res: Option<usize>)
    ensures
        match res {
            Some(k) => k < ws@.len() && ws@[k as int]@ == w@,
            None => forall|k: int| 0 <= k < ws@.len() ==> ws@[k]@ != w@,
        },
{
    let mut k: usize = 0;
    while k < ws.len()
        invariant
            k <= ws@.len(),
            forall|j: int| 0 <= j < k ==> ws@[j]@ != w@,
        decreases ws@.len() - k,
    {
        if ws[k].same_as(w) {
            return Some(k);
        }
        k = k + 1;
    }
    None
}

/// All sessions of the process.
pub struct InMemorySessionStore {
    sessions: Vec<Session>,
    by_id: KeyIndex,
    ids: SessionIdGenerator,
    events: Vec<(SessionId, SessionEvent)>,
}

impl InMemorySessionStore {
    /// The stored sessions, in creation order.
    pub closed spec fn sessions(&self) -> Seq<SessionView> {
        Seq::new(self.sessions@.len(), |i: int| self.sessions@[i]@)
    }

    /// The counter the next session identifier is minted from.
    pub closed spec fn next_counter(&self) -> u64 {
        self.ids.next_counter()
    }

    /// Change notifications not yet handed out, oldest first.
    pub closed spec fn events(&self) -> Seq<(Seq<char>, SessionEvent)> {
        Seq::new(self.events@.len(), |i: int| (self.events@[i].0@, self.events@[i].1))
    }

    /// The key index holds the position of each session identifier.
    pub closed spec fn indexed(&self) -> bool {
        indexes(self.by_id, session_ids(self.sessions()))
    }

    /// Identifiers are unique and indexed, and no session waits on the same
    /// thing twice.
    pub open spec fn wf(&self) -> bool {
        &&& keys_distinct(session_ids(self.sessions()))
        &&& self.indexed()
        &&& forall|i: int| 0 <= i < self.sessions().len() ==> no_duplicates(#[trigger] self.sessions()[i].waits)
    }

    pub fn new() -> (res: Self)
        ensures
            res.wf(),
            res.sessions() == Seq::<SessionView>::empty(),
            res.events() == Seq::<(Seq<char>, SessionEvent)>::empty(),
            res.next_counter() == 0,
    {
        let res = InMemorySessionStore {
            sessions: Vec::new(),
            by_id: index_new(),
            ids: SessionIdGenerator::new(),
            events: Vec::new(),
        };
        proof {
            assert(res.sessions() =~= Seq::<SessionView>::empty());
            assert(session_ids(res.sessions()) =~= Seq::<Seq<char>>::empty());
            lemma_indexes_empty(res.by_id);
            assert(res.events() =~= Seq::<(Seq<char>, SessionEvent)>::empty());
        }
        res
    }

    fn position(&self, id: &SessionId) -> (res: Option<usize>)
        requires
            self.wf(),
        ensures
            match res {
                Some(i) => key_index(session_ids(self.sessions()), id@) == Some(i as int) && i < self.sessions@.len(),
                None => key_index(session_ids(self.sessions()), id@) is None,
            },
    {
        let r = index_get(&self.by_id, id.as_str());
        proof {
            lemma_key_index(session_ids(self.sessions()), id@);
        }
        r
    }

    /// Stores `s`, replacing a session with the same identifier.
    fn put(&mut self, s: Session)
        requires
            old(self).wf(),
            no_duplicates(s@.waits),
        ensures
            final(self).wf(),
            final(self).sessions() == put_session(old(self).sessions(), s@),
            final(self).next_counter() == old(self).next_counter(),
            final(self).events() == old(self).events(),
    {
        let ghost old_ss = self.sessions();
        let ghost sv = s@;
        proof {
            lemma_key_index(session_ids(old_ss), sv.id);
        }
        match self.position(&s.id) {
            Some(i) => {
                self.sessions.set(i, s);
                proof {
                    assert(self.sessions() =~= old_ss.update(i as int, sv));
                    assert(session_ids(self.sessions()) =~= session_ids(old_ss));
                }
            },
            None => {
                let ghost old_index = self.by_id;
                let pos = self.sessions.len();
                index_insert(&mut self.by_id, s.id.as_str().to_owned(), pos);
                self.sessions.push(s);
                proof {
                    assert(self.sessions() =~= old_ss.push(sv));
                    assert(session_ids(self.sessions()) =~= session_ids(old_ss).push(sv.id));
                    lemma_indexes_push(old_index, self.by_id, session_ids(old_ss), sv.id, pos);
                }
            },
        }
    }

    fn create(
        &mut self,
        parent: Option<SessionId>,
        agent_label: String,
        principal: Principal,
        deadline: Option<u64>,
    ) -> (res: SessionId)
        requires
            old(self).wf(),
        ensures
            final(self).wf(),
            res@ == session_id_text(old(self).next_counter() as nat),
            final(self).next_counter() == old(self).next_counter().wrapping_add(1),
            final(self).events() == old(self).events(),
            final(self).sessions() == put_session(
                old(self).sessions(),
                SessionView {
                    id: res@,
                    parent: match parent {
                        Some(p) => Some(p@),
                        None => None,
                    },
                    agent_label: agent_label@,
                    principal: principal.0@,
                    deadline,
                    status: SessionStatus::Active,
                    waits: Seq::empty(),
                },
            ),
    {
        let id = self.ids.next();
        let s = Session::new(id.clone(), parent, agent_label, principal, deadline);
        proof {
            assert(s@.waits =~= Seq::<WaitView>::empty());
        }
        self.put(s);
        id
    }

    /// Creates an active root session and returns its fresh identifier.
    pub fn create_root(
        &mut self,
        agent_label: String,
        principal: Principal,
        deadline: Option<u64>,
    ) -> (res: Result<SessionId, SessionError>)
        requires
            old(self).wf(),
        ensures
            final(self).wf(),
            res is Ok,
            res->Ok_0@ == session_id_text(old(self).next_counter() as nat),
            final(self).next_counter() == old(self).next_counter().wrapping_add(1),
            final(self).events() == old(self).events(),
            final(self).sessions() == put_session(
                old(self).sessions(),
                SessionView {
                    id: res->Ok_0@,
                    parent: None,
                    agent_label: agent_label@,
                    principal: principal.0@,
                    deadline,
                    status: SessionStatus::Active,
                    waits: Seq::empty(),
                },
            ),
    {
        Ok(self.create(None, agent_label, principal, deadline))
    }

    /// Creates an active child session of `parent`.
    pub fn create_child(
        &mut self,
        parent: &SessionId,
        agent_label: String,
        principal: Principal,
        deadline: Option<u64>,
    ) -> (res: Result<SessionId, SessionError>)
        requires
            old(self).wf(),
        ensures
            final(self).wf(),
            res is Ok,
            res->Ok_0@ == session_id_text(old(self).next_counter() as nat),
            final(self).next_counter() == old(self).next_counter().wrapping_add(1),
            final(self).events() == old(self).events(),
            final(self).sessions() == put_session(
                old(self).sessions(),
                SessionView {
                    id: res->Ok_0@,
                    parent: Some(parent@),
                    agent_label: agent_label@,
                    principal: principal.0@,
                    deadline,
                    status: SessionStatus::Active,
                    waits: Seq::empty(),
                },
            ),
    {
        Ok(self.create(Some(parent.clone()), agent_label, principal, deadline))
    }

    /// Whether a session with identifier `id` exists.
    pub fn session_exists(&self, id: &SessionId) -> (res: Result<bool, SessionError>)
        requires
            self.wf(),
        ensures
            res matches Ok(b) && b == find_session(self.sessions(), id@) is Some,
    {
        Ok(self.position(id).is_some())
    }

    /// A copy of the session `id`.
    pub fn get(&self, id: &SessionId) -> (res: Result<Option<Session>, SessionError>)
        requires
            self.wf(),
        ensures
            res is Ok,
            match res->Ok_0 {
                Some(s) => find_session(self.sessions(), id@) == Some(s@),
                None => find_session(self.sessions(), id@) is None,
            },
    {
        match self.position(id) {
            Some(i) => {
                proof {
                    lemma_key_index(session_ids(self.sessions()), id@);
                }
                Ok(Some(self.sessions[i].clone()))
            },
            None => Ok(None),
        }
    }

    /// The status of session `id`.
    pub fn status(&self, id: &SessionId) -> (res: Result<Option<SessionStatus>, SessionError>)
        requires
            self.wf(),
        ensures
            res is Ok,
            match find_session(self.sessions(), id@) {
                Some(s) => res->Ok_0 == Some(s.status),
                None => res->Ok_0 is None,
            },
    {
        match self.position(id) {
            Some(i) => {
                proof {
                    lemma_key_index(session_ids(self.sessions()), id@);
                }
                Ok(Some(self.sessions[i].status))
            },
            None => Ok(None),
        }
    }

    /// Moves session `id` to `status` and queues a `StatusChanged` event.
    /// Fails with `NotFound` for an unknown session and `InvalidTransition`
    /// when a finished session would move elsewhere; both leave the store
    /// unchanged.
    pub fn set_status(&mut self, id: &SessionId, status: SessionStatus) -> (res: Result<(), SessionError>)
        requires
            old(self).wf(),
        ensures
            final(self).wf(),
            final(self).next_counter() == old(self).next_counter(),
            match find_session(old(self).sessions(), id@) {
                None => res matches Err(SessionError::NotFound(s)) && s@ == id@ && final(self).sessions()
                    == old(self).sessions() && final(self).events() == old(self).events(),
                Some(s) => if transition_allowed(s.status, status) {
                    &&& res is Ok
                    &&& final(self).sessions() == put_session(old(self).sessions(), SessionView { status, ..s })
                    &&& final(self).events() == old(self).events().push((id@, SessionEvent::StatusChanged(status)))
                } else {
                    &&& res matches Err(SessionError::InvalidTransition { from, to }) && from == s.status && to == status
                    &&& final(self).sessions() == old(self).sessions()
                    &&& final(self).events() == old(self).events()
                },
            },
    {
        let ghost old_ss = self.sessions();
        let ghost old_ev = self.events();
        match self.position(id) {
            None => Err(SessionError::NotFound(id.as_str().to_owned())),
            Some(i) => {
                proof {
                    lemma_key_index(session_ids(old_ss), id@);
                }
                let mut s = self.sessions[i].clone();
                let r = s.transition(status);
                match r {
                    Ok(()) => {
                        proof {
                            assert(no_duplicates(old_ss[i as int].waits));
                            assert(s@.waits == old_ss[i as int].waits);
                            assert(session_ids(old_ss)[i as int] == s@.id);
                        }
                        self.put(s);
                        self.events.push((id.clone(), SessionEvent::StatusChanged(status)));
                        proof {
                            assert(self.events() =~= old_ev.push((id@, SessionEvent::StatusChanged(status))));
                        }
                        Ok(())
                    },
                    Err(e) => Err(e),
                }
            },
        }
    }

    /// Adds `wait` to session `id` (no change when already present) and
    /// queues a `WaitAdded` event.
    pub fn add_wait(&mut self, id: &SessionId, wait: Wait) -> (res: Result<(), SessionError>)
        requires
            old(self).wf(),
        ensures
            final(self).wf(),
            final(self).next_counter() == old(self).next_counter(),
            match find_session(old(self).sessions(), id@) {
                None => res matches Err(SessionError::NotFound(s)) && s@ == id@ && final(self).sessions()
                    == old(self).sessions() && final(self).events() == old(self).events(),
                Some(s) => {
                    &&& res is Ok
                    &&& final(self).sessions() == put_session(
                        old(self).sessions(),
                        SessionView { waits: insert_wait(s.waits, wait@), ..s },
                    )
                    &&& final(self).events() == old(self).events().push((id@, SessionEvent::WaitAdded))
                },
            },
    {
        let ghost old_ss = self.sessions();
        let ghost old_ev = self.events();
        match self.position(id) {
            None => Err(SessionError::NotFound(id.as_str().to_owned())),
            Some(i) => {
                proof {
                    lemma_key_index(session_ids(old_ss), id@);
                }
                let mut s = self.sessions[i].clone();
                let ghost ws = s@.waits;
                proof {
                    assert(ws == old_ss[i as int].waits);
                    assert(no_duplicates(ws));
                }
                match wait_position(&s.waits, &wait) {
                    Some(k) => {
                        proof {
                            assert(ws[k as int] == wait@);
                            assert(ws.contains(wait@));
                        }
                    },
                    None => {
                        proof {
                            assert(!ws.contains(wait@));
                        }
                        let ghost wv = wait@;
                        s.waits.push(wait);
                        proof {
                            assert(s@.waits =~= ws.push(wv));
                            assert forall|a: int, b: int| 0 <= a < s@.waits.len() && 0 <= b < s@.waits.len() && a != b
                                implies s@.waits[a] != s@.waits[b] by {
                                if a < ws.len() && b < ws.len() {
                                    assert(s@.waits[a] == ws[a]);
                                    assert(s@.waits[b] == ws[b]);
                                }
                            }
                        }
                    },
                }
                proof {
                    assert(s@ == SessionView { waits: insert_wait(old_ss[i as int].waits, wait@), ..old_ss[i as int] });
                }
                self.put(s);
                self.events.push((id.clone(), SessionEvent::WaitAdded));
                proof {
                    assert(self.events() =~= old_ev.push((id@, SessionEvent::WaitAdded)));
                }
                Ok(())
            },
        }
    }

    /// Removes `wait` from session `id` (no change when absent) and queues a
    /// `WaitResolved` event.
    pub fn remove_wait(&mut self, id: &SessionId, wait: &Wait) -> (res: Result<(), SessionError>)
        requires
            old(self).wf(),
        ensures
            final(self).wf(),
            final(self).next_counter() == old(self).next_counter(),
            match find_session(old(self).sessions(), id@) {
                None => res matches Err(SessionError::NotFound(s)) && s@ == id@ && final(self).sessions()
                    == old(self).sessions() && final(self).events() == old(self).events(),
                Some(s) => {
                    &&& res is Ok
                    &&& final(self).sessions() == put_session(
                        old(self).sessions(),
                        SessionView { waits: remove_wait_spec(s.waits, wait@), ..s },
                    )
                    &&& final(self).events() == old(self).events().push((id@, SessionEvent::WaitResolved))
                },
            },
    {
        let ghost old_ss = self.sessions();
        let ghost old_ev = self.events();
        match self.position(id) {
            None => Err(SessionError::NotFound(id.as_str().to_owned())),
            Some(i) => {
                proof {
                    lemma_key_index(session_ids(old_ss), id@);
                }
                let mut t = self.sessions[i].clone();
                let ghost ws = t@.waits;
                proof {
                    assert(ws == old_ss[i as int].waits);
                    assert(no_duplicates(ws));
                }
                match wait_position(&t.waits, wait) {
                    Some(k) => {
                        let ghost wv = t.waits@;
                        let _ = t.waits.remove(k);
                        proof {
                            assert(ws[k as int] == wait@);
                            assert(ws.contains(wait@));
                            let j = ws.index_of(wait@);
                            assert(ws[j] == wait@);
                            assert(j == k);
                            assert(t@.waits =~= ws.remove(k as int));
                            assert forall|a: int, b: int| 0 <= a < t@.waits.len() && 0 <= b < t@.waits.len() && a != b
                                implies t@.waits[a] != t@.waits[b] by {
                                let a0 = if a < k { a } else { a + 1 };
                                let b0 = if b < k { b } else { b + 1 };
                                assert(t@.waits[a] == ws[a0]);
                                assert(t@.waits[b] == ws[b0]);
                            }
                        }
                    },
                    None => {
                        proof {
                            assert(!ws.contains(wait@));
                        }
                    },
                }
                proof {
                    assert(t@ == SessionView { waits: remove_wait_spec(old_ss[i as int].waits, wait@), ..old_ss[i as int] });
                }
                self.put(t);
                self.events.push((id.clone(), SessionEvent::WaitResolved));
                proof {
                    assert(self.events() =~= old_ev.push((id@, SessionEvent::WaitResolved)));
                }
                Ok(())
            },
        }
    }

    /// The waits of session `id` (none for an unknown session).
    pub fn waits(&self, id: &SessionId) -> (res: Result<Vec<Wait>, SessionError>)
        requires
            self.wf(),
        ensures
            res is Ok,
            Seq::new(res->Ok_0@.len(), |i: int| res->Ok_0@[i]@) == match find_session(self.sessions(), id@) {
                Some(s) => s.waits,
                None => Seq::empty(),
            },
    {
        match self.position(id) {
            Some(i) => {
                proof {
                    lemma_key_index(session_ids(self.sessions()), id@);
                }
                Ok(clone_waits(&self.sessions[i].waits))
            },
            None => {
                let v: Vec<Wait> = Vec::new();
                proof {
                    assert(Seq::new(v@.len(), |i: int| v@[i]@) =~= Seq::<WaitView>::empty());
                }
                Ok(v)
            },
        }
    }

    /// Printable references to the waits of session `id`.
    pub fn wait_refs(&self, id: &SessionId) -> (res: Result<Vec<WaitRef>, SessionError>)
        requires
            self.wf(),
        ensures
            res is Ok,
            Seq::new(res->Ok_0@.len(), |i: int| (res->Ok_0@[i].kind, res->Ok_0@[i].label@)) == match find_session(
                self.sessions(),
                id@,
            ) {
                Some(s) => Seq::new(s.waits.len(), |i: int| wait_ref_of(s.waits[i])),
                None => Seq::empty(),
            },
    {
        let r = self.waits(id);
        let ws = match r {
            Ok(v) => v,
            Err(_) => Vec::new(),
        };
        let ghost wv = Seq::new(ws@.len(), |i: int| ws@[i]@);
        proof {
            assert(wv == match find_session(self.sessions(), id@) {
                Some(s) => s.waits,
                None => Seq::<WaitView>::empty(),
            });
        }
        let mut out: Vec<WaitRef> = Vec::new();
        let mut i: usize = 0;
        while i < ws.len()
            invariant
                i <= ws@.len(),
                wv == Seq::new(ws@.len(), |k: int| ws@[k]@),
                Seq::new(out@.len(), |k: int| (out@[k].kind, out@[k].label@)) == Seq::new(
                    i as nat,
                    |k: int| wait_ref_of(wv[k]),
                ),
            decreases ws@.len() - i,
        {
            let ghost before = Seq::new(out@.len(), |k: int| (out@[k].kind, out@[k].label@));
            let r = WaitRef::from_wait(&ws[i]);
            out.push(r);
            proof {
                assert(Seq::new(out@.len(), |k: int| (out@[k].kind, out@[k].label@)) =~= before.push(
                    wait_ref_of(wv[i as int]),
                ));
                assert(Seq::new((i + 1) as nat, |k: int| wait_ref_of(wv[k])) =~= Seq::new(
                    i as nat,
                    |k: int| wait_ref_of(wv[k]),
                ).push(wait_ref_of(wv[i as int])));
            }
            i = i + 1;
        }
        proof {
            match find_session(self.sessions(), id@) {
                Some(s) => {
                    assert(Seq::new(ws@.len() as nat, |k: int| wait_ref_of(wv[k])) =~= Seq::new(
                        s.waits.len(),
                        |k: int| wait_ref_of(s.waits[k]),
                    ));
                },
                None => {
                    assert(Seq::new(ws@.len() as nat, |k: int| wait_ref_of(wv[k])) =~= Seq::<(WaitRefKind, Seq<char>)>::empty());
                },
            }
        }
        Ok(out)
    }

    /// Copies of the sessions that are still active, in creation order.
    pub fn list_active(&self) -> (res: Result<Vec<Session>, SessionError>)
        ensures
            res is Ok,
            Seq::new(res->Ok_0@.len(), |i: int| res->Ok_0@[i]@) == active_sessions(self.sessions()),
    {
        let ghost ss = self.sessions();
        let mut out: Vec<Session> = Vec::new();
        let mut i: usize = 0;
        while i < self.sessions.len()
            invariant
                i <= self.sessions@.len(),
                ss == self.sessions(),
                Seq::new(out@.len(), |j: int| out@[j]@) == active_sessions(ss.take(i as int)),
            decreases self.sessions@.len() - i,
        {
            let ghost before = Seq::new(out@.len(), |j: int| out@[j]@);
            proof {
                let t = ss.take(i as int + 1);
                assert(t.drop_last() =~= ss.take(i as int));
                assert(t.last() == self.sessions@[i as int]@);
            }
            if !self.sessions[i].status.is_terminal() {
                out.push(self.sessions[i].clone());
                proof {
                    assert(Seq::new(out@.len(), |j: int| out@[j]@) =~= before.push(self.sessions@[i as int]@));
                }
            }
            i = i + 1;
        }
        proof {
            assert(ss.take(self.sessions@.len() as int) =~= ss);
        }
        Ok(out)
    }

    /// Moves session `id` to the status that `outcome` calls for.
    pub fn mark_terminal_from_outcome(&mut self, id: &SessionId, outcome: TerminalOutcome) -> (res: Result<(), SessionError>)
        requires
            old(self).wf(),
        ensures
            final(self).wf(),
            final(self).next_counter() == old(self).next_counter(),
            match find_session(old(self).sessions(), id@) {
                None => res matches Err(SessionError::NotFound(s)) && s@ == id@ && final(self).sessions()
                    == old(self).sessions() && final(self).events() == old(self).events(),
                Some(s) => if transition_allowed(s.status, terminal_status(outcome)) {
                    &&& res is Ok
                    &&& final(self).sessions() == put_session(
                        old(self).sessions(),
                        SessionView { status: terminal_status(outcome), ..s },
                    )
                    &&& final(self).events() == old(self).events().push(
                        (id@, SessionEvent::StatusChanged(terminal_status(outcome))),
                    )
                } else {
                    &&& res is Err
                    &&& final(self).sessions() == old(self).sessions()
                    &&& final(self).events() == old(self).events()
                },
            },
    {
        let next = match outcome {
            TerminalOutcome::Done => SessionStatus::Done,
            TerminalOutcome::Abandoned(_) => SessionStatus::Abandoned,
        };
        self.set_status(id, next)
    }

    /// Hands out the queued change notifications, oldest first.
    pub fn take_events(&mut self) -> (res: Vec<(SessionId, SessionEvent)>)
        ensures
            Seq::new(res@.len(), |i: int| (res@[i].0@, res@[i].1)) == old(self).events(),
            final(self).events() == Seq::<(Seq<char>, SessionEvent)>::empty(),
            final(self).sessions() == old(self).sessions(),
            final(self).next_counter() == old(self).next_counter(),
    {
        let mut out: Vec<(SessionId, SessionEvent)> = Vec::new();
        std::mem::swap(&mut out, &mut self.events);
        proof {
            assert(self.events() =~= Seq::<(Seq<char>, SessionEvent)>::empty());
        }
        out
    }
}

/// Per-session inbox queues.
pub struct InMemoryInbox {
    lanes: Vec<(SessionId, Vec<SystemMsg>)>,
    by_id: KeyIndex,
}

/// The contents of a message queue.
pub open spec fn queue_view(q: Seq<SystemMsg>) -> Seq<SystemMsgView> {
    Seq::new(q.len(), |i: int| q[i]@)
}

impl InMemoryInbox {
    /// The sessions that have a lane, in creation order.
    pub closed spec fn lane_ids(&self) -> Seq<Seq<char>> {
        Seq::new(self.lanes@.len(), |i: int| self.lanes@[i].0@)
    }

    /// The queued messages of session `sid`, oldest first.
    pub closed spec fn queue(&self, sid: Seq<char>) -> Seq<SystemMsgView> {
        match key_index(self.lane_ids(), sid) {
            Some(i) => queue_view(self.lanes@[i].1@),
            None => Seq::empty(),
        }
    }

    /// Whether session `sid` has a lane.
    pub closed spec fn has_lane(&self, sid: Seq<char>) -> bool {
        key_index(self.lane_ids(), sid) is Some
    }

    /// The key index holds the position of each lane.
    pub closed spec fn indexed(&self) -> bool {
        indexes(self.by_id, self.lane_ids())
    }

    /// Lane identifiers are unique and indexed.
    pub open spec fn wf(&self) -> bool {
        &&& keys_distinct(self.lane_ids())
        &&& self.indexed()
    }

    pub fn new() -> (res: Self)
        ensures
            res.wf(),
            forall|sid: Seq<char>| #[trigger] res.queue(sid) == Seq::<SystemMsgView>::empty() && !res.has_lane(sid),
    {
        let res = InMemoryInbox { lanes: Vec::new(), by_id: index_new() };
        proof {
            assert(res.lane_ids() =~= Seq::<Seq<char>>::empty());
            lemma_indexes_empty(res.by_id);
        }
        res
    }

    fn position(&self, id: &SessionId) -> (res: Option<usize>)
        requires
            self.wf(),
        ensures
            match res {
                Some(i) => key_index(self.lane_ids(), id@) == Some(i as int) && i < self.lanes@.len(),
                None => key_index(self.lane_ids(), id@) is None,
            },
    {
        let r = index_get(&self.by_id, id.as_str());
        proof {
            lemma_key_index(self.lane_ids(), id@);
        }
        r
    }

    /// Index of the lane of `id`, creating an empty one when missing.
    fn lane(&mut self, id: &SessionId) -> (res: usize)
        requires
            old(self).wf(),
        ensures
            final(self).wf(),
            res < final(self).lanes@.len(),
            key_index(final(self).lane_ids(), id@) == Some(res as int),
            final(self).has_lane(id@),
            forall|sid: Seq<char>| #[trigger] final(self).queue(sid) == old(self).queue(sid),
            forall|sid: Seq<char>| sid != id@ ==> (#[trigger] final(self).has_lane(sid) == old(self).has_lane(sid)),
    {
        match self.position(id) {
            Some(i) => i,
            None => {
                let ghost old_ids = self.lane_ids();
                let ghost old_lanes = self.lanes@;
                proof {
                    lemma_key_index(old_ids, id@);
                }
                let ghost old_index = self.by_id;
                let pos = self.lanes.len();
                index_insert(&mut self.by_id, id.as_str().to_owned(), pos);
                self.lanes.push((id.clone(), Vec::new()));
                let n = self.lanes.len() - 1;
                proof {
                    assert(self.lane_ids() =~= old_ids.push(id@));
                    lemma_indexes_push(old_index, self.by_id, old_ids, id@, pos);
                    assert(self.lane_ids().drop_last() =~= old_ids);
                    assert forall|sid: Seq<char>| #[trigger] self.queue(sid) == old(self).queue(sid) by {
                        if sid != id@ {
                            lemma_key_index(old_ids, sid);
                            match key_index(old_ids, sid) {
                                Some(j) => {
                                    assert(self.lanes@[j] == old_lanes[j]);
                                },
                                None => {},
                            }
                        } else {
                            assert(queue_view(self.lanes@[n as int].1@) =~= Seq::<SystemMsgView>::empty());
                        }
                    }
                }
                n
            },
        }
    }

    /// Appends `msg` to the queue of `session`.
    pub fn push(&mut self, session: &SessionId, msg: SystemMsg) -> (res: Result<(), SessionError>)
        requires
            old(self).wf(),
        ensures
            final(self).wf(),
            res is Ok,
            final(self).queue(session@) == old(self).queue(session@).push(msg@),
            final(self).has_lane(session@),
            forall|sid: Seq<char>| sid != session@ ==> #[trigger] final(self).queue(sid) == old(self).queue(sid),
            forall|sid: Seq<char>| sid != session@ ==> #[trigger] final(self).has_lane(sid) == old(self).has_lane(sid),
    {
        let i = self.lane(session);
        let ghost mid_self = *self;
        let ghost mid_ids = self.lane_ids();
        let ghost mid_lanes = self.lanes@;
        proof {
            lemma_key_index(mid_ids, session@);
            assert(mid_self.queue(session@) == old(self).queue(session@));
        }
        let ghost mid = queue_view(self.lanes@[i as int].1@);
        let ghost mv = msg@;
        let (sid, mut q) = self.lanes.remove(i);
        q.push(msg);
        self.lanes.insert(i, (sid, q));
        proof {
            assert(self.lanes@ =~= mid_lanes.update(i as int, self.lanes@[i as int]));
            assert(self.lane_ids() =~= mid_ids);
            assert(queue_view(self.lanes@[i as int].1@) =~= mid.push(mv));
            assert forall|s: Seq<char>| s != session@ implies #[trigger] self.has_lane(s) == old(self).has_lane(s) by {
                assert(mid_self.has_lane(s) == old(self).has_lane(s));
            }
            assert forall|s: Seq<char>| s != session@ implies #[trigger] self.queue(s) == old(self).queue(s) by {
                assert(mid_self.queue(s) == old(self).queue(s));
                lemma_key_index(mid_ids, s);
                match key_index(mid_ids, s) {
                    Some(j) => {
                        assert(j != i);
                        assert(self.lanes@[j] == mid_lanes[j]);
                    },
                    None => {},
                }
            }
        }
        Ok(())
    }

    /// Takes every queued message of `session`, oldest first.
    pub fn drain(&mut self, session: &SessionId) -> (res: Result<Vec<SystemMsg>, SessionError>)
        requires
            old(self).wf(),
        ensures
            final(self).wf(),
            res is Ok,
            queue_view(res->Ok_0@) == old(self).queue(session@),
            final(self).queue(session@) == Seq::<SystemMsgView>::empty(),
            final(self).has_lane(session@),
            forall|sid: Seq<char>| sid != session@ ==> #[trigger] final(self).queue(sid) == old(self).queue(sid),
            forall|sid: Seq<char>| sid != session@ ==> #[trigger] final(self).has_lane(sid) == old(self).has_lane(sid),
    {
        let i = self.lane(session);
        let ghost mid_self = *self;
        let ghost mid_ids = self.lane_ids();
        let ghost mid_lanes = self.lanes@;
        proof {
            lemma_key_index(mid_ids, session@);
            assert(mid_self.queue(session@) == old(self).queue(session@));
        }
        let (sid, q) = self.lanes.remove(i);
        self.lanes.insert(i, (sid, Vec::new()));
        proof {
            assert(self.lanes@ =~= mid_lanes.update(i as int, self.lanes@[i as int]));
            assert(self.lane_ids() =~= mid_ids);
            assert(queue_view(self.lanes@[i as int].1@) =~= Seq::<SystemMsgView>::empty());
            assert forall|s: Seq<char>| s != session@ implies #[trigger] self.has_lane(s) == old(self).has_lane(s) by {
                assert(mid_self.has_lane(s) == old(self).has_lane(s));
            }
            assert forall|s: Seq<char>| s != session@ implies #[trigger] self.queue(s) == old(self).queue(s) by {
                assert(mid_self.queue(s) == old(self).queue(s));
                lemma_key_index(mid_ids, s);
                match key_index(mid_ids, s) {
                    Some(j) => {
                        assert(j != i);
                        assert(self.lanes@[j] == mid_lanes[j]);
                    },
                    None => {},
                }
            }
        }
        Ok(q)
    }

    /// Drops the lane of `session` with whatever it still holds.
    pub fn close(&mut self, session: &SessionId) -> (res: Result<(), SessionError>)
        requires
            old(self).wf(),
        ensures
            final(self).wf(),
            res is Ok,
            final(self).queue(session@) == Seq::<SystemMsgView>::empty(),
            !final(self).has_lane(session@),
            forall|sid: Seq<char>| sid != session@ ==> #[trigger] final(self).queue(sid) == old(self).queue(sid),
            forall|sid: Seq<char>| sid != session@ ==> #[trigger] final(self).has_lane(sid) == old(self).has_lane(sid),
    {
        match self.position(session) {
            None => {},
            Some(i) => {
                let ghost old_ids = self.lane_ids();
                let ghost old_lanes = self.lanes@;
                proof {
                    lemma_key_index(old_ids, session@);
                }
                let _ = self.lanes.remove(i);
                proof {
                    assert(self.lane_ids() =~= old_ids.remove(i as int));
                    assert forall|a: int, b: int| 0 <= a < self.lane_ids().len() && 0 <= b < self.lane_ids().len() && a != b
                        implies self.lane_ids()[a] != self.lane_ids()[b] by {
                        let a0 = if a < i { a } else { a + 1 };
                        let b0 = if b < i { b } else { b + 1 };
                        assert(self.lane_ids()[a] == old_ids[a0]);
                        assert(self.lane_ids()[b] == old_ids[b0]);
                    }
                    lemma_key_index(self.lane_ids(), session@);
                    if key_index(self.lane_ids(), session@) is Some {
                        let j = key_index(self.lane_ids(), session@)->0;
                        let j0 = if j < i { j } else { j + 1 };
                        assert(self.lane_ids()[j] == old_ids[j0]);
                        lemma_key_index(old_ids, session@);
                    }
                    assert forall|s: Seq<char>| s != session@ implies #[trigger] self.queue(s) == old(self).queue(s) by {
                        lemma_key_index(old_ids, s);
                        lemma_key_index(self.lane_ids(), s);
                        match key_index(old_ids, s) {
                            Some(j) => {
                                assert(j != i);
                                let j1 = if j < i { j } else { j - 1 };
                                assert(self.lane_ids()[j1] == s);
                                crate::persistence::lemma_key_index_unique(self.lane_ids(), j1);
                                assert(self.lanes@[j1] == old_lanes[j]);
                            },
                            None => {
                                if key_index(self.lane_ids(), s) is Some {
                                    let j = key_index(self.lane_ids(), s)->0;
                                    let j0 = if j < i { j } else { j + 1 };
                                    assert(old_ids[j0] == s);
                                }
                            },
                        }
                    }
                    assert forall|s: Seq<char>| s != session@ implies #[trigger] self.has_lane(s) == old(self).has_lane(s) by {
                        lemma_key_index(old_ids, s);
                        lemma_key_index(self.lane_ids(), s);
                        match key_index(old_ids, s) {
                            Some(j) => {
                                assert(j != i);
                                let j1 = if j < i { j } else { j - 1 };
                                assert(self.lane_ids()[j1] == s);
                                crate::persistence::lemma_key_index_unique(self.lane_ids(), j1);
                                assert(self.lanes@[j1] == old_lanes[j]);
                            },
                            None => {
                                if key_index(self.lane_ids(), s) is Some {
                                    let j = key_index(self.lane_ids(), s)->0;
                                    let j0 = if j < i { j } else { j + 1 };
                                    assert(old_ids[j0] == s);
                                }
                            },
                        }
                    }
                }
                self.reindex();
            },
        }
        Ok(())
    }

    /// Rebuilds the key index from the lanes.
    fn reindex(&mut self)
        ensures
            final(self).lanes == old(self).lanes,
            final(self).lane_ids() == old(self).lane_ids(),
            final(self).indexed(),
            forall|sid: Seq<char>| #[trigger] final(self).queue(sid) == old(self).queue(sid),
            forall|sid: Seq<char>| #[trigger] final(self).has_lane(sid) == old(self).has_lane(sid),
    {
        let mut fresh = index_new();
        let ghost ids = self.lane_ids();
        proof {
            assert(ids.take(0) =~= Seq::<Seq<char>>::empty());
            lemma_indexes_empty(fresh);
        }
        let mut j: usize = 0;
        while j < self.lanes.len()
            invariant
                j <= self.lanes@.len(),
                ids == self.lane_ids(),
                self.lanes == old(self).lanes,
                indexes(fresh, ids.take(j as int)),
            decreases self.lanes@.len() - j,
        {
            let ghost before = fresh;
            index_insert(&mut fresh, self.lanes[j].0.as_str().to_owned(), j);
            proof {
                assert(ids.take(j as int + 1) =~= ids.take(j as int).push(ids[j as int]));
                lemma_indexes_push(before, fresh, ids.take(j as int), ids[j as int], j);
            }
            j = j + 1;
        }
        proof {
            assert(ids.take(self.lanes@.len() as int) =~= ids);
        }
        self.by_id = fresh;
        proof {
            assert(self.lane_ids() =~= ids);
        }
    }
}

} // verus!
