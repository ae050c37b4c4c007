//! The terminal interface's state and how events change it. Drawing and
//! the terminal itself belong to the host; here is what is drawn.

pub mod approvals_pane;
pub mod chat_pane;
pub mod keymap;
pub mod log_pane;
pub mod runtime_glue;

use vstd::prelude::*;

verus! {

/// The three panes.
#[derive(Debug, Clone, Copy, PartialEq, Eq, Structural)]
pub enum Pane {
    Chat,
    Approvals,
    Log,
}

/// The pane after `p` in the focus cycle.
pub open spec fn next_pane(p: Pane) -> Pane {
    match p {
        Pane::Chat => Pane::Approvals,
        Pane::Approvals => Pane::Log,
        Pane::Log => Pane::Chat,
    }
}

/// The whole interface state.
#[derive(Debug)]
pub struct App {
    pub focus: Pane,
    pub chat: chat_pane::ChatState,
    pub log: log_pane::LogState,
    pub approvals: approvals_pane::ApprovalsState,
    pub quitting: bool,
}

/// What happens to the interface.
#[derive(Debug)]
pub enum AppEvent {
    FocusNext,
    Key(keymap::KeyEvent),
    /// A clock tick at the given instant.
    Tick(u64),
    Log(log_pane::LogLine),
    Chat(chat_pane::ChatMsg),
    Approval(approvals_pane::ApprovalEvent),
    Quit,
}

/// Lines the log pane keeps.
pub const LOG_CAPACITY: usize = 1000;

impl App {
    pub fn new() -> (res: Self)
        ensures
            res.focus == Pane::Chat,
            !res.quitting,
            res.chat.history@.len() == 0,
            res.log.lines@.len() == 0,
            res.log.capacity == LOG_CAPACITY,
            res.approvals.pending@.len() == 0,
            res.approvals.selected == 0,
            !res.approvals.deny_modal_open,
    {
        App {
            focus: Pane::Chat,
            chat: chat_pane::ChatState { history: Vec::new(), input: String::new(), scroll: 0 },
            log: log_pane::LogState::with_capacity(LOG_CAPACITY),
            approvals: approvals_pane::ApprovalsState {
                pending: Vec::new(),
                selected: 0,
                deny_modal_open: false,
                deny_reason: String::new(),
            },
            quitting: false,
        }
    }

    /// Applies one event.
    pub fn reduce(&mut self, ev: AppEvent)
        ensures
            match ev {
                AppEvent::FocusNext => *final(self) == App { focus: next_pane(old(self).focus), ..*old(self) },
                AppEvent::Quit => *final(self) == App { quitting: true, ..*old(self) },
                AppEvent::Key(_) => *final(self) == *old(self),
                AppEvent::Tick(now) => {
                    &&& final(self).approvals.pending@ == approvals_pane::unexpired(old(self).approvals.pending@, now)
                    &&& final(self).approvals.selected == approvals_pane::clamp_selection(
                        old(self).approvals.selected as nat,
                        final(self).approvals.pending@.len(),
                    )
                    &&& final(self).focus == old(self).focus && final(self).quitting == old(self).quitting
                    &&& final(self).chat == old(self).chat && final(self).log == old(self).log
                },
                AppEvent::Log(line) => {
                    &&& final(self).log.lines@ == if old(self).log.lines@.len() >= old(self).log.capacity && old(
                        self,
                    ).log.lines@.len() > 0 {
                        old(self).log.lines@.drop_first().push(line)
                    } else {
                        old(self).log.lines@.push(line)
                    }
                    &&& final(self).log.scroll == log_pane::last_index(final(self).log.lines@.len())
                    &&& final(self).log.capacity == old(self).log.capacity
                    &&& final(self).focus == old(self).focus && final(self).quitting == old(self).quitting
                    &&& final(self).chat == old(self).chat && final(self).approvals == old(self).approvals
                },
                AppEvent::Chat(msg) => {
                    &&& final(self).chat.history@ == old(self).chat.history@.push(msg)
                    &&& final(self).chat.input == old(self).chat.input
                    &&& final(self).chat.scroll == old(self).chat.scroll
                    &&& final(self).focus == old(self).focus && final(self).quitting == old(self).quitting
                    &&& final(self).log == old(self).log && final(self).approvals == old(self).approvals
                },
                AppEvent::Approval(a) => {
                    &&& final(self).focus == old(self).focus && final(self).quitting == old(self).quitting
                    &&& final(self).chat == old(self).chat && final(self).log == old(self).log
                    &&& match a {
                        approvals_pane::ApprovalEvent::SetPending(ts) => {
                            &&& final(self).approvals.pending == ts
                            &&& final(self).approvals.selected == approvals_pane::clamp_selection(
                                old(self).approvals.selected as nat,
                                ts@.len(),
                            )
                            &&& final(self).approvals.deny_modal_open == old(self).approvals.deny_modal_open
                        },
                        approvals_pane::ApprovalEvent::SelectNext => {
                            &&& final(self).approvals.pending == old(self).approvals.pending
                            &&& final(self).approvals.selected == if old(self).approvals.pending@.len() > 0 && old(
                                self,
                            ).approvals.selected + 1 < old(self).approvals.pending@.len() {
                                old(self).approvals.selected + 1
                            } else {
                                old(self).approvals.selected as int
                            }
                        },
                        approvals_pane::ApprovalEvent::SelectPrev => {
                            &&& final(self).approvals.pending == old(self).approvals.pending
                            &&& final(self).approvals.selected == if old(self).approvals.selected > 0 {
                                old(self).approvals.selected - 1
                            } else {
                                0
                            }
                        },
                        approvals_pane::ApprovalEvent::DenyModalClosed => {
                            &&& final(self).approvals.pending == old(self).approvals.pending
                            &&& final(self).approvals.selected == old(self).approvals.selected
                            &&& !final(self).approvals.deny_modal_open
                        },
                    }
                },
            },
    {
        match ev {
            AppEvent::FocusNext => {
                self.focus = match self.focus {
                    Pane::Chat => Pane::Approvals,
                    Pane::Approvals => Pane::Log,
                    Pane::Log => Pane::Chat,
                };
            },
            AppEvent::Quit => {
                self.quitting = true;
            },
            AppEvent::Tick(now) => {
                self.approvals.advance(now);
            },
            AppEvent::Log(line) => {
                self.log.push(line);
            },
            AppEvent::Chat(msg) => {
                self.chat.history.push(msg);
            },
            AppEvent::Approval(a) => {
                match a {
                    approvals_pane::ApprovalEvent::SetPending(tickets) => {
                        self.approvals.set_pending(tickets);
                    },
                    approvals_pane::ApprovalEvent::SelectNext => {
                        self.approvals.select_next();
                    },
                    approvals_pane::ApprovalEvent::SelectPrev => {
                        self.approvals.select_prev();
                    },
                    approvals_pane::ApprovalEvent::DenyModalClosed => {
                        self.approvals.deny_modal_open = false;
                    },
                }
            },
            AppEvent::Key(_) => {},
        }
    }
}

/// What the host does once a key's action has been applied to the state.
#[derive(Debug)]
pub enum ChatStep {
    /// Nothing more to do.
    Continue,
    /// Leave the interface.
    Quit,
    /// Send this text to the orchestrator; its reply joins the chat.
    Prompt(String),
    /// Decide the ticket with this identifier.
    Decide(String, keymap::ApprovalChoice),
}

impl App {
    /// Applies the action a key press asked for: the parts that change the
    /// interface happen here, and the result names the outside work left.
    pub fn apply_action(&mut self, action: keymap::Action) -> (res: ChatStep)
        ensures
            match action {
                keymap::Action::Quit => *final(self) == App { quitting: true, ..*old(self) } && res is Quit,
                keymap::Action::FocusNext => *final(self) == App { focus: next_pane(old(self).focus), ..*old(self) }
                    && res is Continue,
                keymap::Action::SelectNext => {
                    &&& res is Continue
                    &&& final(self).focus == old(self).focus && final(self).quitting == old(self).quitting
                    &&& final(self).chat == old(self).chat
                    &&& final(self).approvals.pending == old(self).approvals.pending
                    &&& final(self).approvals.deny_modal_open == old(self).approvals.deny_modal_open
                    &&& final(self).log.lines == old(self).log.lines
                    &&& final(self).log.capacity == old(self).log.capacity
                    &&& final(self).approvals.selected == if old(self).focus == Pane::Approvals && old(
                        self,
                    ).approvals.selected + 1 < old(self).approvals.pending@.len() {
                        old(self).approvals.selected + 1
                    } else {
                        old(self).approvals.selected as int
                    }
                    &&& final(self).log.scroll == if old(self).focus == Pane::Log && old(self).log.scroll > 0 {
                        old(self).log.scroll - 1
                    } else {
                        old(self).log.scroll as int
                    }
                },
                keymap::Action::SelectPrev => {
                    &&& res is Continue
                    &&& final(self).focus == old(self).focus && final(self).quitting == old(self).quitting
                    &&& final(self).chat == old(self).chat
                    &&& final(self).approvals.pending == old(self).approvals.pending
                    &&& final(self).approvals.deny_modal_open == old(self).approvals.deny_modal_open
                    &&& final(self).log.lines == old(self).log.lines
                    &&& final(self).log.capacity == old(self).log.capacity
                    &&& final(self).approvals.selected == if old(self).focus == Pane::Approvals && old(
                        self,
                    ).approvals.selected > 0 {
                        old(self).approvals.selected - 1
                    } else {
                        old(self).approvals.selected as int
                    }
                    &&& final(self).log.scroll == if old(self).focus == Pane::Log && old(self).log.scroll
                        < log_pane::last_index(old(self).log.lines@.len()) {
                        old(self).log.scroll + 1
                    } else {
                        old(self).log.scroll as int
                    }
                },
                keymap::Action::InputChar(c) => {
                    &&& res is Continue
                    &&& final(self).chat.input@ == old(self).chat.input@.push(c)
                    &&& final(self).chat.history == old(self).chat.history
                    &&& final(self).chat.scroll == old(self).chat.scroll
                    &&& final(self).focus == old(self).focus && final(self).quitting == old(self).quitting
                    &&& final(self).log == old(self).log && final(self).approvals == old(self).approvals
                },
                keymap::Action::InputBackspace => {
                    &&& res is Continue
                    &&& final(self).chat.input@ == if old(self).chat.input@.len() > 0 {
                        old(self).chat.input@.drop_last()
                    } else {
                        old(self).chat.input@
                    }
                    &&& final(self).chat.history == old(self).chat.history
                    &&& final(self).chat.scroll == old(self).chat.scroll
                    &&& final(self).focus == old(self).focus && final(self).quitting == old(self).quitting
                    &&& final(self).log == old(self).log && final(self).approvals == old(self).approvals
                },
                keymap::Action::SubmitChat(_) => if old(self).chat.input@.len() == 0 {
                    *final(self) == *old(self) && res is Continue
                } else {
                    &&& res matches ChatStep::Prompt(t) && t@ == old(self).chat.input@
                    &&& final(self).chat.history@.len() == old(self).chat.history@.len() + 1
                    &&& final(self).chat.history@.take(old(self).chat.history@.len() as int) == old(
                        self,
                    ).chat.history@
                    &&& final(self).chat.history@.last() matches chat_pane::ChatMsg::User(u) && u@ == old(
                        self,
                    ).chat.input@
                    &&& final(self).chat.input@.len() == 0
                    &&& final(self).chat.scroll == old(self).chat.scroll
                    &&& final(self).focus == old(self).focus && final(self).quitting == old(self).quitting
                    &&& final(self).log == old(self).log && final(self).approvals == old(self).approvals
                },
                keymap::Action::ApprovalDecide(choice) => {
                    &&& *final(self) == *old(self)
                    &&& if old(self).approvals.selected < old(self).approvals.pending@.len() {
                        res matches ChatStep::Decide(id, c) && id@ == old(self).approvals.pending@[old(
                            self,
                        ).approvals.selected as int].id@ && c == choice
                    } else {
                        res is Continue
                    }
                },
                _ => *final(self) == *old(self) && res is Continue,
            },
    {
        match action {
            keymap::Action::Quit => {
                self.quitting = true;
                ChatStep::Quit
            },
            keymap::Action::FocusNext => {
                self.reduce(AppEvent::FocusNext);
                ChatStep::Continue
            },
            keymap::Action::SelectNext => {
                if self.focus == Pane::Approvals {
                    self.approvals.select_next();
                } else if self.focus == Pane::Log {
                    self.log.scroll_up();
                }
                ChatStep::Continue
            },
            keymap::Action::SelectPrev => {
                if self.focus == Pane::Approvals {
                    self.approvals.select_prev();
                } else if self.focus == Pane::Log {
                    self.log.scroll_down();
                }
                ChatStep::Continue
            },
            keymap::Action::InputChar(c) => {
                crate::text::push_char(&mut self.chat.input, c);
                ChatStep::Continue
            },
            keymap::Action::InputBackspace => {
                let n = self.chat.input.as_str().unicode_len();
                if n > 0 {
                    let shorter = crate::text::prefix_chars(self.chat.input.as_str(), n - 1);
                    proof {
                        assert(shorter@ =~= old(self).chat.input@.drop_last());
                    }
                    self.chat.input = shorter;
                }
                ChatStep::Continue
            },
            keymap::Action::SubmitChat(_) => {
                if self.chat.input.as_str().unicode_len() == 0 {
                    ChatStep::Continue
                } else {
                    let text = self.chat.input.clone();
                    let ghost before = self.chat.history@;
                    self.chat.history.push(chat_pane::ChatMsg::User(text.clone()));
                    self.chat.input = String::new();
                    proof {
                        assert(self.chat.history@.take(before.len() as int) =~= before);
                    }
                    ChatStep::Prompt(text)
                }
            },
            keymap::Action::ApprovalDecide(choice) => {
                match self.approvals.selected_id() {
                    Some(id) => ChatStep::Decide(id.to_owned(), choice),
                    None => ChatStep::Continue,
                }
            },
            _ => ChatStep::Continue,
        }
    }
}

/// Cycling the focus three times comes back to the start.
pub proof fn lemma_focus_cycle(p: Pane)
    ensures
        next_pane(next_pane(next_pane(p))) == p,
        next_pane(p) != p,
{
}

} // verus!
