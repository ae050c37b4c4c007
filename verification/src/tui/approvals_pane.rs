//! The approvals pane's state: the pending tickets, the selection and the
//! denial dialog.
//!
//! Instants are nanoseconds on the runtime's clock.

use vstd::prelude::*;
use crate::json::JsonValue;
use crate::approvals::canonical::{pretty_json, spec_pretty_json};
use crate::sessions::SessionId;
use crate::numfmt::{decimal_digits, push_decimal};

verus! {

/// A pending ticket as the pane shows it.
#[derive(Debug)]
pub struct Ticket {
    pub id: String,
    pub session_id: SessionId,
    pub action_kind: String,
    pub args: JsonValue,
    pub reason: String,
    pub hint: Option<String>,
    pub expires_at: u64,
}

/// The pending tickets, which one is selected, and the denial dialog.
#[derive(Debug, Default)]
pub struct ApprovalsState {
    pub pending: Vec<Ticket>,
    pub selected: usize,
    pub deny_modal_open: bool,
    pub deny_reason: String,
}

/// A change to the approvals pane.
#[derive(Debug)]
pub enum ApprovalEvent {
    SetPending(Vec<Ticket>),
    SelectNext,
    SelectPrev,
    DenyModalClosed,
}

/// The selection kept within a list of `n` entries.
pub open spec fn clamp_selection(selected: nat, n: nat) -> nat {
    let last: nat = if n == 0 { 0 } else { (n - 1) as nat };
    if selected <= last { selected } else { last }
}

/// The tickets of `ts` that expire after `now`, in order.
pub open spec fn unexpired(ts: Seq<Ticket>, now: u64) -> Seq<Ticket>
    decreases ts.len(),
{
    if ts.len() == 0 {
        Seq::empty()
    } else if ts.last().expires_at > now {
        unexpired(ts.drop_last(), now).push(ts.last())
    } else {
        unexpired(ts.drop_last(), now)
    }
}

proof fn lemma_unexpired_push(ts: Seq<Ticket>, t: Ticket, now: u64)
    ensures
        unexpired(ts.push(t), now) == if t.expires_at > now {
            unexpired(ts, now).push(t)
        } else {
            unexpired(ts, now)
        },
{
    assert(ts.push(t).drop_last() =~= ts);
}

/// Time left on the first ticket with identifier `id`; zero when there is
/// none or it has expired.
pub open spec fn remaining_spec(ts: Seq<Ticket>, id: Seq<char>, now: u64) -> u64 {
    if exists|i: int| 0 <= i < ts.len() && #[trigger] ts[i].id@ == id {
        let i = choose|i: int| 0 <= i < ts.len() && ts[i].id@ == id && forall|j: int| 0 <= j < i ==> ts[j].id@ != id;
        if ts[i].expires_at > now { (ts[i].expires_at - now) as u64 } else { 0 }
    } else {
        0
    }
}

impl ApprovalsState {
    /// Replaces the pending tickets, keeping the selection within them.
    pub fn set_pending(&mut self, tickets: Vec<Ticket>)
        ensures
            final(self).pending == tickets,
            final(self).selected == clamp_selection(old(self).selected as nat, tickets@.len()),
            final(self).deny_modal_open == old(self).deny_modal_open,
            final(self).deny_reason == old(self).deny_reason,
    {
        self.pending = tickets;
        let last = if self.pending.len() > 0 {
            self.pending.len() - 1
        } else {
            0
        };
        if self.selected > last {
            self.selected = last;
        }
    }

    /// Moves the selection one down, not past the last ticket.
    pub fn select_next(&mut self)
        ensures
            final(self).pending == old(self).pending,
            final(self).deny_modal_open == old(self).deny_modal_open,
            final(self).deny_reason == old(self).deny_reason,
            final(self).selected == if old(self).pending@.len() > 0 && old(self).selected + 1 < old(self).pending@.len() {
                old(self).selected + 1
            } else {
                old(self).selected as int
            },
    {
        if self.pending.len() > 0 && self.selected < self.pending.len() - 1 {
            self.selected = self.selected + 1;
        }
    }

    /// Moves the selection one up, not past the first ticket.
    pub fn select_prev(&mut self)
        ensures
            final(self).pending == old(self).pending,
            final(self).deny_modal_open == old(self).deny_modal_open,
            final(self).deny_reason == old(self).deny_reason,
            final(self).selected == if old(self).selected > 0 { old(self).selected - 1 } else { 0 },
    {
        if self.selected > 0 {
            self.selected = self.selected - 1;
        }
    }

    /// The identifier of the selected ticket.
    pub fn selected_id(&self) -> (res: Option<&str>)
        ensures
            match res {
                Some(id) => self.selected < self.pending@.len() && id@ == self.pending@[self.selected as int].id@,
                None => self.selected >= self.pending@.len(),
            },
    {
        if self.selected < self.pending.len() {
            Some(self.pending[self.selected].id.as_str())
        } else {
            None
        }
    }

    /// Time left at `now` on the ticket `id`.
    pub fn remaining_for(&self, id: &str, now: u64) -> (res: u64)
        ensures
            res == remaining_spec(self.pending@, id@, now),
    {
        let wanted: String = id.to_owned();
        let mut i: usize = 0;
        while i < self.pending.len()
            invariant
                i <= self.pending@.len(),
                wanted@ == id@,
                forall|j: int| 0 <= j < i ==> self.pending@[j].id@ != id@,
            decreases self.pending@.len() - i,
        {
            if self.pending[i].id == wanted {
                proof {
                    let ts = self.pending@;
                    let k = choose|k: int| 0 <= k < ts.len() && ts[k].id@ == id@ && forall|j: int| 0 <= j < k ==> ts[j].id@ != id@;
                    if k < i {
                    } else if k > i {
                        assert(ts[i as int].id@ != id@);
                    }
                }
                let e = self.pending[i].expires_at;
                return if e > now {
                    e - now
                } else {
                    0
                };
            }
            i = i + 1;
        }
        0
    }

    /// Drops the tickets that expired by `now`, keeping the selection within
    /// those left.
    pub fn advance(&mut self, now: u64)
        ensures
            final(self).pending@ == unexpired(old(self).pending@, now),
            final(self).selected == clamp_selection(old(self).selected as nat, final(self).pending@.len()),
            final(self).deny_modal_open == old(self).deny_modal_open,
            final(self).deny_reason == old(self).deny_reason,
    {
        let mut rest: Vec<Ticket> = Vec::new();
        std::mem::swap(&mut rest, &mut self.pending);
        let ghost orig = rest@;
        let n = rest.len();
        let mut kept: Vec<Ticket> = Vec::new();
        let mut k: usize = 0;
        while rest.len() > 0
            invariant
                k <= orig.len(),
                orig.len() == n,
                rest@ == orig.skip(k as int),
                kept@ == unexpired(orig.take(k as int), now),
            decreases rest@.len(),
        {
            let t = rest.remove(0);
            proof {
                assert(t == orig[k as int]);
                assert(orig.take(k as int + 1) =~= orig.take(k as int).push(t));
                lemma_unexpired_push(orig.take(k as int), t, now);
            }
            if t.expires_at > now {
                kept.push(t);
            }
            k = k + 1;
            proof {
                assert(rest@ =~= orig.skip(k as int));
            }
        }
        proof {
            assert(orig.take(k as int) =~= orig);
        }
        self.pending = kept;
        let last = if self.pending.len() > 0 {
            self.pending.len() - 1
        } else {
            0
        };
        if self.selected > last {
            self.selected = last;
        }
    }
}

/// Nanoseconds in a second.
pub const NANOS_PER_SECOND: u64 = 1_000_000_000;

/// `n` in decimal, at least two digits (zero-padded).
pub open spec fn two_digits(n: nat) -> Seq<char> {
    if n < 10 { seq!['0'] + decimal_digits(n) } else { decimal_digits(n) }
}

/// A ticket's time left as `mm:ss` (minutes not capped).
pub open spec fn ttl_text(remaining_nanos: u64) -> Seq<char> {
    let secs = (remaining_nanos / NANOS_PER_SECOND) as nat;
    two_digits(secs / 60) + seq![':'] + two_digits(secs % 60)
}

/// The text of the denial dialog.
pub open spec fn deny_modal_spec(reason: Seq<char>) -> Seq<char> {
    "Reason for denial:\n"@ + reason + "\n\n[Enter] submit  [Esc] cancel"@
}

/// A row of the pending list: a marker on the selected one, then the id.
pub open spec fn row_spec(id: Seq<char>, selected: bool) -> Seq<char> {
    (if selected { "▸ "@ } else { "  "@ }) + id
}

/// The detail of a ticket: its action, session, reason, arguments (as the
/// caller rendered them), hint when there is one, and time left.
pub open spec fn detail_spec(t: Ticket, args_text: Seq<char>, remaining_nanos: u64) -> Seq<char> {
    "Action: "@ + t.action_kind@ + "\nSession: "@ + t.session_id@ + "\nReason: "@ + t.reason@ + "\nArgs: "@
        + args_text + match t.hint {
        Some(h) => "\nHint: "@ + h@,
        None => Seq::empty(),
    } + "\nTTL: "@ + ttl_text(remaining_nanos)
}

/// Appends `n` in decimal, zero-padded to two digits.
fn push_two_digits(out: &mut String, n: u64)
    ensures
        final(out)@ == old(out)@ + two_digits(n as nat),
{
    if n < 10 {
        crate::text::push_char(out, '0');
    }
    push_decimal(out, n);
    proof {
        assert(final(out)@ =~= old(out)@ + two_digits(n as nat));
    }
}

impl ApprovalsState {
    /// The text of the denial dialog.
    pub fn deny_modal_text(&self) -> (res: String)
        ensures
            res@ == deny_modal_spec(self.deny_reason@),
    {
        let mut s = "Reason for denial:\n".to_owned();
        s.append(self.deny_reason.as_str());
        s.append("\n\n[Enter] submit  [Esc] cancel");
        s
    }

    /// The rows of the pending list.
    pub fn list_rows(&self) -> (res: Vec<String>)
        ensures
            res@.len() == self.pending@.len(),
            forall|i: int| 0 <= i < res@.len() ==> #[trigger] res@[i]@ == row_spec(
                self.pending@[i].id@,
                i == self.selected,
            ),
    {
        let mut rows: Vec<String> = Vec::new();
        let mut i: usize = 0;
        while i < self.pending.len()
            invariant
                i <= self.pending@.len(),
                rows@.len() == i,
                forall|j: int| 0 <= j < i ==> #[trigger] rows@[j]@ == row_spec(self.pending@[j].id@, j == self.selected),
            decreases self.pending@.len() - i,
        {
            let mut r = if i == self.selected {
                "▸ ".to_owned()
            } else {
                "  ".to_owned()
            };
            r.append(self.pending[i].id.as_str());
            rows.push(r);
            i = i + 1;
        }
        rows
    }
}

/// What the approvals pane shows.
#[derive(Debug)]
pub enum PaneView {
    /// The denial dialog, with its text.
    DenyModal(String),
    /// The notice that nothing is pending.
    Empty(String),
    /// The rows of the pending list, and the detail of the selected ticket
    /// when the selection is on one.
    Listing(Vec<String>, Option<String>),
}

impl ApprovalsState {
    /// `view` is what the pane shows at `now`, the selected ticket's
    /// arguments rendered as `args_text`: the denial dialog while it is open,
    /// else a notice when nothing is pending, else the rows of the pending
    /// list and the selected ticket's detail (none when the selection is on
    /// no ticket).
    pub open spec fn shows(&self, args_text: Seq<char>, now: u64, view: PaneView) -> bool {
        if self.deny_modal_open {
            view matches PaneView::DenyModal(t) && t@ == deny_modal_spec(self.deny_reason@)
        } else if self.pending@.len() == 0 {
            view matches PaneView::Empty(t) && t@ == "No pending approvals"@
        } else {
            view matches PaneView::Listing(rows, detail) && {
                &&& rows@.len() == self.pending@.len()
                &&& forall|i: int| 0 <= i < rows@.len() ==> #[trigger] rows@[i]@ == row_spec(
                    self.pending@[i].id@,
                    i == self.selected,
                )
                &&& self.selected < self.pending@.len() ==> (detail matches Some(d) && d@ == detail_spec(
                    self.pending@[self.selected as int],
                    args_text,
                    remaining_spec(self.pending@, self.pending@[self.selected as int].id@, now),
                ))
                &&& self.selected >= self.pending@.len() ==> detail is None
            }
        }
    }

    /// The arguments the pane shows for the selected ticket: its arguments
    /// as pretty-printed JSON, empty when the selection is on no ticket.
    pub open spec fn selected_args_text(&self) -> Seq<char> {
        if self.selected < self.pending@.len() {
            spec_pretty_json(self.pending@[self.selected as int].args@)
        } else {
            Seq::empty()
        }
    }

    /// What the pane shows at `now`, the selected ticket's arguments
    /// pretty-printed as JSON.
    pub fn current_view(&self, now: u64) -> (res: PaneView)
        ensures
            self.shows(self.selected_args_text(), now, res),
    {
        let args = match self.selected_ticket() {
            Some(t) => pretty_json(&t.args),
            None => String::new(),
        };
        self.pane_view(args.as_str(), now)
    }
}

impl ApprovalsState {
    /// The selected ticket, when the selection is on one.
    pub fn selected_ticket(&self) -> (res: Option<&Ticket>)
        ensures
            match res {
                Some(t) => self.selected < self.pending@.len() && *t == self.pending@[self.selected as int],
                None => self.selected >= self.pending@.len(),
            },
    {
        if self.selected < self.pending.len() {
            Some(&self.pending[self.selected])
        } else {
            None
        }
    }

    /// The detail of the selected ticket at `now`, its arguments rendered
    /// as `args_text`; `None` when the selection is on no ticket.
    pub fn selected_detail(&self, args_text: &str, now: u64) -> (res: Option<String>)
        ensures
            self.selected < self.pending@.len() ==> (res matches Some(d) && d@ == detail_spec(
                self.pending@[self.selected as int],
                args_text@,
                remaining_spec(self.pending@, self.pending@[self.selected as int].id@, now),
            )),
            self.selected >= self.pending@.len() ==> res is None,
    {
        match self.selected_ticket() {
            Some(t) => {
                let remaining = self.remaining_for(t.id.as_str(), now);
                Some(detail_text(t, args_text, remaining))
            },
            None => None,
        }
    }

    /// What the pane shows at `now`: the denial dialog while it is open,
    /// else a notice when nothing is pending, else the pending list and the
    /// selected ticket's detail (its arguments rendered as `args_text`).
    pub fn pane_view(&self, args_text: &str, now: u64) -> (res: PaneView)
        ensures
            self.shows(args_text@, now, res),
    {
        if self.deny_modal_open {
            return PaneView::DenyModal(self.deny_modal_text());
        }
        if self.pending.len() == 0 {
            return PaneView::Empty("No pending approvals".to_owned());
        }
        PaneView::Listing(self.list_rows(), self.selected_detail(args_text, now))
    }
}

/// The detail text of ticket `t`, with `remaining_nanos` left and its
/// arguments rendered as `args_text`.
pub fn detail_text(t: &Ticket, args_text: &str, remaining_nanos: u64) -> (res: String)
    ensures
        res@ == detail_spec(*t, args_text@, remaining_nanos),
{
    let mut s = "Action: ".to_owned();
    s.append(t.action_kind.as_str());
    s.append("\nSession: ");
    s.append(t.session_id.as_str());
    s.append("\nReason: ");
    s.append(t.reason.as_str());
    s.append("\nArgs: ");
    s.append(args_text);
    let ghost before_hint = s@;
    match &t.hint {
        Some(h) => {
            s.append("\nHint: ");
            s.append(h.as_str());
        },
        None => {},
    }
    s.append("\nTTL: ");
    let secs = remaining_nanos / NANOS_PER_SECOND;
    push_two_digits(&mut s, secs / 60);
    crate::text::push_char(&mut s, ':');
    push_two_digits(&mut s, secs % 60);
    proof {
        assert(s@ =~= detail_spec(*t, args_text@, remaining_nanos));
    }
    s
}

} // verus!
