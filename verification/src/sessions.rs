//! Short, collision-safe sequential session identifiers and the session
//! record that the runtime keeps for every running agent.
//!
//! Identifiers are rendered as `s_<base36 counter>`: short enough for a
//! language model to copy reliably, and distinct for distinct counter values.

use vstd::prelude::*;
use crate::text::push_char;
use crate::approvals::types::TicketId;

verus! {

/// The base-36 digit character for `d` (`0-9`, then `a-z`).
pub open spec fn digit_char(d: nat) -> char {
    if d < 10 { (48 + d) as char } else { (87 + d) as char }
}

/// The numeric value of a base-36 digit character.
pub open spec fn digit_value(c: char) -> int {
    if c as int >= 97 { c as int - 87 } else { c as int - 48 }
}

/// Base-36 rendering of `n` without leading zeros (`"0"` for zero).
pub open spec fn base36_digits(n: nat) -> Seq<char>
    decreases n,
{
    if n < 36 {
        seq![digit_char(n)]
    } else {
        base36_digits(n / 36).push(digit_char(n % 36))
    }
}

/// Reads a sequence of base-36 digits back as a number.
pub open spec fn base36_value(s: Seq<char>) -> int
    decreases s.len(),
{
    if s.len() == 0 {
        0
    } else {
        base36_value(s.drop_last()) * 36 + digit_value(s.last())
    }
}

proof fn lemma_digit_roundtrip(d: nat)
    requires
        d < 36,
    ensures
        digit_value(digit_char(d)) == d,
        digit_char(d) as int == if d < 10 { 48 + d } else { 87 + d },
{
}

/// Reading back the rendering of `n` gives `n`.
pub proof fn lemma_base36_roundtrip(n: nat)
    ensures
        base36_value(base36_digits(n)) == n,
    decreases n,
{
    if n < 36 {
        lemma_digit_roundtrip(n);
        let s = seq![digit_char(n)];
        assert(s.drop_last() =~= Seq::<char>::empty());
        assert(base36_value(Seq::<char>::empty()) == 0);
        assert(s.last() == digit_char(n));
        assert(base36_value(s) == base36_value(s.drop_last()) * 36 + digit_value(s.last()));
    } else {
        lemma_base36_roundtrip(n / 36);
        lemma_digit_roundtrip(n % 36);
        let s = base36_digits(n / 36).push(digit_char(n % 36));
        assert(s.drop_last() =~= base36_digits(n / 36));
        assert(s.last() == digit_char(n % 36));
        assert(base36_value(s) == base36_value(s.drop_last()) * 36 + digit_value(s.last()));
        assert(n == (n / 36) * 36 + n % 36);
    }
}

/// Distinct counters render to distinct base-36 strings.
pub proof fn lemma_base36_injective(a: nat, b: nat)
    requires
        a != b,
    ensures
        base36_digits(a) != base36_digits(b),
{
    lemma_base36_roundtrip(a);
    lemma_base36_roundtrip(b);
}

/// The text of the session identifier minted from counter value `n`.
pub open spec fn session_id_text(n: nat) -> Seq<char> {
    seq!['s', '_'] + base36_digits(n)
}

/// Opaque session identifier. Always rendered as `s_<base36 counter>` when
/// minted by a [`SessionIdGenerator`].
#[derive(Debug, PartialEq, Eq, Hash)]
pub struct SessionId(String);

impl View for SessionId {
    type V = Seq<char>;

    closed spec fn view(&self) -> Seq<char> {
        self.0@
    }
}

impl Clone for SessionId {
    fn clone(&self) -> (res: Self)
        ensures
            res == *self,
    {
        SessionId(self.0.clone())
    }
}

/// A well-formed session identifier: `s_` followed by at least one character.
pub open spec fn well_formed_session_text(s: Seq<char>) -> bool {
    s.len() >= 3 && s[0] == 's' && s[1] == '_'
}

/// Error for a string that is not a session identifier.
#[derive(Debug)]
pub struct InvalidSessionId(pub String);

impl SessionId {
    pub fn as_str(&self) -> (res: &str)
        ensures
            res@ == self@,
    {
        self.0.as_str()
    }

    pub fn into_string(self) -> (res: String)
        ensures
            res@ == self@,
    {
        self.0
    }

    /// Two identifiers name the same session.
    pub fn same_as(&self, other: &SessionId) -> (res: bool)
        ensures
            res == (self@ == other@),
    {
        self.0 == other.0
    }

    /// Construct a `SessionId` from a previously-generated string. Validates
    /// the `s_` prefix to defend against accidental misuse (e.g. passing an
    /// arbitrary user string as a session id).
    pub fn from_string(raw: String) -> (res: Result<SessionId, InvalidSessionId>)
        ensures
            match res {
                Ok(id) => well_formed_session_text(raw@) && id@ == raw@,
                Err(InvalidSessionId(back)) => !well_formed_session_text(raw@) && back@ == raw@,
            },
    {
        let n = raw.as_str().unicode_len();
        if n < 3 {
            return Err(InvalidSessionId(raw));
        }
        let c0 = raw.as_str().get_char(0);
        let c1 = raw.as_str().get_char(1);
        if c0 != 's' || c1 != '_' {
            return Err(InvalidSessionId(raw));
        }
        Ok(SessionId(raw))
    }

    /// Constructor that bypasses prefix validation, for short identifiers in
    /// tests and fixtures.
    pub fn for_test(raw: &str) -> (res: SessionId)
        ensures
            res@ == raw@,
    {
        SessionId(raw.to_owned())
    }
}

/// Sequential `SessionId` generator.
#[derive(Debug, Default)]
pub struct SessionIdGenerator {
    counter: u64,
}

impl SessionIdGenerator {
    /// The counter value that the next identifier will be minted from.
    pub closed spec fn next_counter(&self) -> u64 {
        self.counter
    }

    pub fn new() -> (res: Self)
        ensures
            res.next_counter() == 0,
    {
        SessionIdGenerator { counter: 0 }
    }

    /// Mints `s_<base36 counter>` and advances the counter (wrapping at
    /// `u64::MAX`, as an atomic `fetch_add` does).
    pub fn next(&mut self) -> (res: SessionId)
        ensures
            res@ == session_id_text(old(self).next_counter() as nat),
            final(self).next_counter() == old(self).next_counter().wrapping_add(1),
    {
        let n = self.counter;
        self.counter = self.counter.wrapping_add(1);
        let mut s = String::new();
        push_char(&mut s, 's');
        push_char(&mut s, '_');
        let digits = to_base36(n);
        s.append(digits.as_str());
        SessionId(s)
    }
}

/// Identifiers minted from distinct counter values are distinct.
pub proof fn lemma_session_ids_distinct(a: u64, b: u64)
    requires
        a != b,
    ensures
        session_id_text(a as nat) != session_id_text(b as nat),
{
    lemma_base36_injective(a as nat, b as nat);
    if session_id_text(a as nat) == session_id_text(b as nat) {
        assert(session_id_text(a as nat).skip(2) =~= base36_digits(a as nat));
        assert(session_id_text(b as nat).skip(2) =~= base36_digits(b as nat));
    }
}

/// The base-36 digit character for `d < 36`.
pub fn base36_digit(d: u64) -> (c: char)
    requires
        d < 36,
    ensures
        c == digit_char(d as nat),
{
    if d < 10 {
        ((48u8 + d as u8) as char)
    } else {
        ((87u8 + d as u8) as char)
    }
}

/// Base-36 rendering of `n` with the alphabet `0-9a-z`.
pub fn to_base36(n: u64) -> (s: String)
    ensures
        s@ == base36_digits(n as nat),
    decreases n,
{
    if n < 36 {
        let mut s = String::new();
        push_char(&mut s, base36_digit(n));
        s
    } else {
        let mut s = to_base36(n / 36);
        push_char(&mut s, base36_digit(n % 36));
        s
    }
}

/// The principal on whose behalf a session runs.
#[derive(Debug)]
pub struct Principal(pub String);

impl Clone for Principal {
    fn clone(&self) -> (res: Self)
        ensures
            res == *self,
    {
        Principal(self.0.clone())
    }
}

/// Something a session is blocked on.
#[derive(Debug)]
pub enum Wait {
    Approval(TicketId),
    SubAgent(SessionId),
    UserMessage,
}

/// The content of a [`Wait`].
pub enum WaitView {
    Approval(Seq<char>),
    SubAgent(Seq<char>),
    UserMessage,
}

impl View for Wait {
    type V = WaitView;

    open spec fn view(&self) -> WaitView {
        match self {
            Wait::Approval(t) => WaitView::Approval(t@),
            Wait::SubAgent(s) => WaitView::SubAgent(s@),
            Wait::UserMessage => WaitView::UserMessage,
        }
    }
}

impl Clone for Wait {
    fn clone(&self) -> (res: Self)
        ensures
            res@ == self@,
    {
        match self {
            Wait::Approval(t) => Wait::Approval(t.clone()),
            Wait::SubAgent(s) => Wait::SubAgent(s.clone()),
            Wait::UserMessage => Wait::UserMessage,
        }
    }
}

impl Wait {
    /// The two waits are the same wait.
    pub fn same_as(&self, other: &Wait) -> (res: bool)
        ensures
            res == (self@ == other@),
    {
        match (self, other) {
            (Wait::Approval(a), Wait::Approval(b)) => a.0 == b.0,
            (Wait::SubAgent(a), Wait::SubAgent(b)) => a.same_as(b),
            (Wait::UserMessage, Wait::UserMessage) => true,
            _ => false,
        }
    }
}

/// The kind of a wait, without its payload.
#[derive(Debug, Clone, Copy, PartialEq, Eq, Structural)]
pub enum WaitRefKind {
    Approval,
    SubAgent,
    UserMessage,
}

/// A printable reference to a wait: its kind and the identifier it waits on
/// (empty for a user message).
#[derive(Debug)]
pub struct WaitRef {
    pub kind: WaitRefKind,
    pub label: String,
}

/// The kind and label that a wait is shown with.
pub open spec fn wait_ref_of(w: WaitView) -> (WaitRefKind, Seq<char>) {
    match w {
        WaitView::Approval(t) => (WaitRefKind::Approval, t),
        WaitView::SubAgent(s) => (WaitRefKind::SubAgent, s),
        WaitView::UserMessage => (WaitRefKind::UserMessage, Seq::empty()),
    }
}

impl WaitRef {
    pub fn from_wait(w: &Wait) -> (res: WaitRef)
        ensures
            (res.kind, res.label@) == wait_ref_of(w@),
    {
        match w {
            Wait::Approval(t) => WaitRef { kind: WaitRefKind::Approval, label: t.0.clone() },
            Wait::SubAgent(s) => WaitRef { kind: WaitRefKind::SubAgent, label: s.as_str().to_owned() },
            Wait::UserMessage => WaitRef { kind: WaitRefKind::UserMessage, label: String::new() },
        }
    }
}

/// Lifecycle of a session.
#[derive(Debug, Clone, Copy, PartialEq, Eq, Structural)]
pub enum SessionStatus {
    Active,
    Done,
    Abandoned,
}

impl SessionStatus {
    /// A finished session: `Done` or `Abandoned`.
    pub fn is_terminal(self) -> (res: bool)
        ensures
            res <==> self != SessionStatus::Active,
    {
        match self {
            SessionStatus::Active => false,
            _ => true,
        }
    }
}

/// Why a session operation failed.
#[derive(Debug)]
pub enum SessionError {
    NotFound(String),
    InvalidTransition { from: SessionStatus, to: SessionStatus },
}

/// Whether a session may move from `from` to `to`: an active session may
/// move anywhere; a finished one only stays where it is.
pub open spec fn transition_allowed(from: SessionStatus, to: SessionStatus) -> bool {
    from == SessionStatus::Active || from == to
}

/// A running (or finished) agent session.
#[derive(Debug)]
pub struct Session {
    pub id: SessionId,
    pub parent: Option<SessionId>,
    pub agent_label: String,
    pub principal: Principal,
    /// Deadline on the runtime clock, in nanoseconds.
    pub deadline: Option<u64>,
    pub status: SessionStatus,
    /// What the session waits on; no wait occurs twice.
    pub waits: Vec<Wait>,
}

/// The content of a [`Session`].
pub struct SessionView {
    pub id: Seq<char>,
    pub parent: Option<Seq<char>>,
    pub agent_label: Seq<char>,
    pub principal: Seq<char>,
    pub deadline: Option<u64>,
    pub status: SessionStatus,
    pub waits: Seq<WaitView>,
}

impl View for Session {
    type V = SessionView;

    open spec fn view(&self) -> SessionView {
        SessionView {
            id: self.id@,
            parent: match self.parent {
                Some(p) => Some(p@),
                None => None,
            },
            agent_label: self.agent_label@,
            principal: self.principal.0@,
            deadline: self.deadline,
            status: self.status,
            waits: Seq::new(self.waits@.len(), |i: int| self.waits@[i]@),
        }
    }
}

/// No element occurs twice.
pub open spec fn no_duplicates<A>(s: Seq<A>) -> bool {
    forall|i: int, j: int| 0 <= i < s.len() && 0 <= j < s.len() && i != j ==> s[i] != s[j]
}

/// Copies a list of waits.
pub fn clone_waits(ws: &Vec<Wait>) -> (res: Vec<Wait>)
    ensures
        Seq::new(res@.len(), |i: int| res@[i]@) == Seq::new(ws@.len(), |i: int| ws@[i]@),
{
    let mut out: Vec<Wait> = Vec::new();
    let mut i: usize = 0;
    while i < ws.len()
        invariant
            i <= ws@.len(),
            Seq::new(out@.len(), |k: int| out@[k]@) == Seq::new(i as nat, |k: int| ws@[k]@),
        decreases ws@.len() - i,
    {
        let ghost before = Seq::new(out@.len(), |k: int| out@[k]@);
        out.push(ws[i].clone());
        proof {
            assert(Seq::new(out@.len(), |k: int| out@[k]@) =~= before.push(ws@[i as int]@));
            assert(Seq::new((i + 1) as nat, |k: int| ws@[k]@) =~= Seq::new(i as nat, |k: int| ws@[k]@).push(ws@[i as int]@));
        }
        i = i + 1;
    }
    out
}

impl Clone for Session {
    fn clone(&self) -> (res: Self)
        ensures
            res@ == self@,
    {
        let parent = match &self.parent {
            Some(p) => Some(p.clone()),
            None => None,
        };
        Session {
            id: self.id.clone(),
            parent,
            agent_label: self.agent_label.clone(),
            principal: self.principal.clone(),
            deadline: self.deadline,
            status: self.status,
            waits: clone_waits(&self.waits),
        }
    }
}

impl Session {
    /// A fresh active session with no waits.
    pub fn new(
        id: SessionId,
        parent: Option<SessionId>,
        agent_label: String,
        principal: Principal,
        deadline: Option<u64>,
    ) -> (res: Session)
        ensures
            res.id == id,
            res.parent == parent,
            res.agent_label == agent_label,
            res.principal == principal,
            res.deadline == deadline,
            res.status == SessionStatus::Active,
            res.waits@.len() == 0,
    {
        Session { id, parent, agent_label, principal, deadline, status: SessionStatus::Active, waits: Vec::new() }
    }

    /// Moves the session to `to` when [`transition_allowed`]; otherwise
    /// leaves it unchanged and reports the refused transition.
    pub fn transition(&mut self, to: SessionStatus) -> (res: Result<(), SessionError>)
        ensures
            transition_allowed(old(self).status, to) ==> res is Ok && final(self)@ == (SessionView {
                status: to,
                ..old(self)@
            }),
            !transition_allowed(old(self).status, to) ==> final(self)@ == old(self)@ && (res matches Err(
                SessionError::InvalidTransition { from, to: t },
            ) && from == old(self).status && t == to),
    {
        if self.status == SessionStatus::Active || self.status == to {
            self.status = to;
            Ok(())
        } else {
            Err(SessionError::InvalidTransition { from: self.status, to })
        }
    }
}

} // verus!
