//! The chat pane's state and the text of each chat line.

use vstd::prelude::*;
use crate::notifications::types::Severity;
use crate::text::char_prefix;
use crate::text::prefix_chars;

verus! {

/// One entry of the chat history.
#[derive(Debug)]
pub enum ChatMsg {
    User(String),
    Agent { label: String, text: String },
    SubAgentSpawn { label: String, child: String },
    SubAgentFinish { label: String, child: String, outcome: String },
    Notify { severity: Severity, subject: String, body: String },
}

/// The chat history, the line being typed and the scroll offset.
#[derive(Debug, Default)]
pub struct ChatState {
    pub history: Vec<ChatMsg>,
    pub input: String,
    pub scroll: u16,
}

/// The first `max_chars` characters of `s`: cut by characters, never
/// inside one.
pub fn truncate_for_width(s: &str, max_chars: usize) -> (res: String)
    ensures
        res@ == char_prefix(s@, max_chars as nat),
{
    prefix_chars(s, max_chars)
}

/// The tag a notification is shown with.
pub open spec fn severity_tag(s: Severity) -> Seq<char> {
    match s {
        Severity::Info => "[INFO]"@,
        Severity::Warn => "[WARN]"@,
        Severity::Error => "[ERROR]"@,
        Severity::Blocker => "[BLOCKER]"@,
    }
}

pub fn severity_prefix(s: Severity) -> (res: &'static str)
    ensures
        res@ == severity_tag(s),
{
    match s {
        Severity::Info => "[INFO]",
        Severity::Warn => "[WARN]",
        Severity::Error => "[ERROR]",
        Severity::Blocker => "[BLOCKER]",
    }
}

/// `n - 10`, or zero below ten.
pub open spec fn minus_ten(n: nat) -> nat {
    if n >= 10 { (n - 10) as nat } else { 0 }
}

/// The text of a chat line at width `width`.
pub open spec fn chat_line_spec(m: ChatMsg, width: nat) -> Seq<char> {
    match m {
        ChatMsg::User(text) => "You: "@ + char_prefix(text@, width),
        ChatMsg::Agent { label, text } => "["@ + label@ + "]: "@ + char_prefix(text@, width),
        ChatMsg::SubAgentSpawn { label, child } => "\u{26A1} spawned "@ + label@ + "/"@ + child@,
        ChatMsg::SubAgentFinish { label, child, outcome } => "\u{2713} "@ + label@ + "/"@ + child@
            + " finished: "@ + outcome@,
        ChatMsg::Notify { severity, subject, body } => severity_tag(severity) + " "@ + char_prefix(
            if body@.len() == 0 {
                subject@
            } else {
                subject@ + ": "@ + body@
            },
            minus_ten(width),
        ),
    }
}

/// The text of a chat line at width `width`.
pub fn chat_line(m: &ChatMsg, width: usize) -> (res: String)
    ensures
        res@ == chat_line_spec(*m, width as nat),
{
    let mut out = String::new();
    match m {
        ChatMsg::User(text) => {
            out.append("You: ");
            let p = truncate_for_width(text.as_str(), width);
            out.append(p.as_str());
        },
        ChatMsg::Agent { label, text } => {
            out.append("[");
            out.append(label.as_str());
            out.append("]: ");
            let p = truncate_for_width(text.as_str(), width);
            out.append(p.as_str());
        },
        ChatMsg::SubAgentSpawn { label, child } => {
            out.append("\u{26A1} spawned ");
            out.append(label.as_str());
            out.append("/");
            out.append(child.as_str());
        },
        ChatMsg::SubAgentFinish { label, child, outcome } => {
            out.append("\u{2713} ");
            out.append(label.as_str());
            out.append("/");
            out.append(child.as_str());
            out.append(" finished: ");
            out.append(outcome.as_str());
        },
        ChatMsg::Notify { severity, subject, body } => {
            out.append(severity_prefix(*severity));
            out.append(" ");
            let w = if width >= 10 {
                width - 10
            } else {
                0
            };
            let detail = if body.as_str().unicode_len() == 0 {
                truncate_for_width(subject.as_str(), w)
            } else {
                let mut full = String::new();
                full.append(subject.as_str());
                full.append(": ");
                full.append(body.as_str());
                truncate_for_width(full.as_str(), w)
            };
            out.append(detail.as_str());
        },
    }
    out
}

impl ChatState {
    /// The history as shown in a pane `width` characters wide, one line
    /// per entry.
    pub fn history_lines(&self, width: usize) -> (res: Vec<String>)
        ensures
            res@.len() == self.history@.len(),
            forall|i: int| 0 <= i < res@.len() ==> #[trigger] res@[i]@ == chat_line_spec(self.history@[i], width as nat),
    {
        let mut out: Vec<String> = Vec::new();
        let mut i: usize = 0;
        while i < self.history.len()
            invariant
                i <= self.history@.len(),
                out@.len() == i,
                forall|k: int| 0 <= k < i ==> #[trigger] out@[k]@ == chat_line_spec(self.history@[k], width as nat),
            decreases self.history@.len() - i,
        {
            out.push(chat_line(&self.history[i], width));
            i = i + 1;
        }
        out
    }

    /// The line being typed, cut to `width` characters.
    pub fn visible_input(&self, width: usize) -> (res: String)
        ensures
            res@ == char_prefix(self.input@, width as nat),
    {
        prefix_chars(self.input.as_str(), width)
    }
}

} // verus!
