//! The log pane's state: a bounded history of log lines and a scroll
//! position.

use vstd::prelude::*;
use crate::text::{char_prefix, prefix_chars};

verus! {

/// The level of a log line, most to least severe.
#[derive(Debug, Clone, Copy, PartialEq, Eq, Structural)]
pub enum TraceLevel {
    Error,
    Warn,
    Info,
    Debug,
    Trace,
}

/// One log line. `at` is nanoseconds since the Unix epoch.
#[derive(Debug)]
pub struct LogLine {
    pub at: u64,
    pub level: TraceLevel,
    pub target: String,
    pub message: String,
}

/// The most recent log lines (oldest dropped beyond the capacity) and the
/// scroll position.
#[derive(Debug, Default)]
pub struct LogState {
    pub lines: Vec<LogLine>,
    pub capacity: usize,
    pub scroll: usize,
}

/// `n - 1`, or zero for zero.
pub open spec fn last_index(n: nat) -> nat {
    if n == 0 { 0 } else { (n - 1) as nat }
}

impl LogState {
    pub fn with_capacity(cap: usize) -> (res: Self)
        ensures
            res.lines@.len() == 0,
            res.capacity == cap,
            res.scroll == 0,
    {
        LogState { lines: Vec::new(), capacity: cap, scroll: 0 }
    }

    /// Appends `line`, dropping the oldest line when full, and scrolls to
    /// the newest line.
    pub fn push(&mut self, line: LogLine)
        ensures
            final(self).capacity == old(self).capacity,
            final(self).lines@ == if old(self).lines@.len() >= old(self).capacity && old(self).lines@.len() > 0 {
                old(self).lines@.drop_first().push(line)
            } else {
                old(self).lines@.push(line)
            },
            final(self).scroll == last_index(final(self).lines@.len()),
    {
        if self.lines.len() >= self.capacity && self.lines.len() > 0 {
            let ghost before = self.lines@;
            let _ = self.lines.remove(0);
            proof {
                assert(self.lines@ =~= before.drop_first());
            }
        }
        self.lines.push(line);
        self.scroll = self.lines.len() - 1;
    }

    /// One line up, not past the first.
    pub fn scroll_up(&mut self)
        ensures
            final(self).lines == old(self).lines,
            final(self).capacity == old(self).capacity,
            final(self).scroll == if old(self).scroll > 0 { old(self).scroll - 1 } else { 0 },
    {
        if self.scroll > 0 {
            self.scroll = self.scroll - 1;
        }
    }

    /// One line down, not past the last.
    pub fn scroll_down(&mut self)
        ensures
            final(self).lines == old(self).lines,
            final(self).capacity == old(self).capacity,
            final(self).scroll == if old(self).scroll < last_index(old(self).lines@.len()) {
                old(self).scroll + 1
            } else {
                old(self).scroll as int
            },
    {
        let max = if self.lines.len() > 0 {
            self.lines.len() - 1
        } else {
            0
        };
        if self.scroll < max {
            self.scroll = self.scroll + 1;
        }
    }
}

/// The first line shown in a pane `height` lines tall.
pub open spec fn first_visible(scroll: nat, height: nat) -> nat {
    if scroll >= height { (scroll - height) as nat } else { 0 }
}

impl LogState {
    /// The messages shown in a pane `height` lines tall and `width`
    /// characters wide: up to `height` lines from `first_visible`, each cut
    /// to `width` characters.
    pub fn visible(&self, height: usize, width: usize) -> (res: Vec<String>)
        ensures
            ({
                let start = first_visible(self.scroll as nat, height as nat);
                let n = self.lines@.len();
                let count: int = if start >= n { 0 } else if n - start < height { n - start } else { height as int };
                &&& res@.len() == count
                &&& forall|i: int| 0 <= i < count ==> #[trigger] res@[i]@ == char_prefix(
                    self.lines@[start + i].message@,
                    width as nat,
                )
            }),
    {
        let start = if self.scroll >= height {
            self.scroll - height
        } else {
            0
        };
        let mut out: Vec<String> = Vec::new();
        let mut i: usize = start;
        while i < self.lines.len() && i - start < height
            invariant
                start <= i,
                start == first_visible(self.scroll as nat, height as nat),
                i <= self.lines@.len() || i == start,
                i - start <= height,
                out@.len() == i - start,
                forall|k: int| 0 <= k < i - start ==> #[trigger] out@[k]@ == char_prefix(
                    self.lines@[start + k].message@,
                    width as nat,
                ),
            decreases self.lines@.len() - i,
        {
            out.push(prefix_chars(self.lines[i].message.as_str(), width));
            i = i + 1;
        }
        out
    }
}

/// The log pane never holds more lines than its capacity (one when the
/// capacity is zero).
pub proof fn lemma_log_bounded(before: nat, cap: nat)
    requires
        before <= cap || before <= 1,
    ensures
        ({
            let after: nat = if before >= cap && before > 0 { before } else { before + 1 };
            after <= cap || after <= 1
        }),
{
}

} // verus!
