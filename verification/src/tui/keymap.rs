//! Which action a key press means in which pane.

use vstd::prelude::*;
use crate::tui::Pane;

verus! {

/// The key of a key press.
#[derive(Debug, Clone, Copy, PartialEq, Eq, Structural)]
pub enum KeyCode {
    Tab,
    Enter,
    Backspace,
    Up,
    Down,
    Char(char),
    /// Any other key.
    Other,
}

/// No modifier held.
pub const MOD_NONE: u8 = 0;

/// The Shift modifier bit.
pub const MOD_SHIFT: u8 = 1;

/// The Control modifier bit.
pub const MOD_CONTROL: u8 = 2;

/// A key press: the key and the set of modifier bits held.
#[derive(Debug, Clone, Copy, PartialEq, Eq, Structural)]
pub struct KeyEvent {
    pub code: KeyCode,
    pub modifiers: u8,
}

impl KeyEvent {
    pub fn new(code: KeyCode, modifiers: u8) -> (res: Self)
        ensures
            res.code == code,
            res.modifiers == modifiers,
    {
        KeyEvent { code, modifiers }
    }
}

/// What the human decided in the approvals pane.
#[derive(Debug, Clone, PartialEq, Eq)]
pub enum ApprovalChoice {
    Approve,
    Deny { reason: String },
    Skip,
}

/// What a key press asks for.
#[derive(Debug, Clone, PartialEq, Eq)]
pub enum Action {
    FocusNext,
    Quit,
    SelectNext,
    SelectPrev,
    ApprovalDecide(ApprovalChoice),
    OpenDenyModal,
    SubmitDenyReason(String),
    SubmitChat(String),
    InputChar(char),
    InputBackspace,
    NoOp,
}

/// The content of an [`ApprovalChoice`].
pub enum ApprovalChoiceView {
    Approve,
    Deny { reason: Seq<char> },
    Skip,
}

/// The content of an [`Action`].
pub enum ActionView {
    FocusNext,
    Quit,
    SelectNext,
    SelectPrev,
    ApprovalDecide(ApprovalChoiceView),
    OpenDenyModal,
    SubmitDenyReason(Seq<char>),
    SubmitChat(Seq<char>),
    InputChar(char),
    InputBackspace,
    NoOp,
}

impl View for ApprovalChoice {
    type V = ApprovalChoiceView;

    open spec fn view(&self) -> ApprovalChoiceView {
        match self {
            ApprovalChoice::Approve => ApprovalChoiceView::Approve,
            ApprovalChoice::Deny { reason } => ApprovalChoiceView::Deny { reason: reason@ },
            ApprovalChoice::Skip => ApprovalChoiceView::Skip,
        }
    }
}

impl View for Action {
    type V = ActionView;

    open spec fn view(&self) -> ActionView {
        match self {
            Action::FocusNext => ActionView::FocusNext,
            Action::Quit => ActionView::Quit,
            Action::SelectNext => ActionView::SelectNext,
            Action::SelectPrev => ActionView::SelectPrev,
            Action::ApprovalDecide(c) => ActionView::ApprovalDecide(c@),
            Action::OpenDenyModal => ActionView::OpenDenyModal,
            Action::SubmitDenyReason(r) => ActionView::SubmitDenyReason(r@),
            Action::SubmitChat(t) => ActionView::SubmitChat(t@),
            Action::InputChar(c) => ActionView::InputChar(*c),
            Action::InputBackspace => ActionView::InputBackspace,
            Action::NoOp => ActionView::NoOp,
        }
    }
}

/// A move down the list: `j` or the down arrow.
pub open spec fn is_down(k: KeyCode) -> bool {
    k == KeyCode::Char('j') || k == KeyCode::Down
}

/// A move up the list: `k` or the up arrow.
pub open spec fn is_up(k: KeyCode) -> bool {
    k == KeyCode::Char('k') || k == KeyCode::Up
}

/// The action of `key` in `pane`: Tab and Ctrl-C everywhere; typing,
/// Enter and Backspace in the chat; `j`/`k` (or arrows), `a`, `d`, `s` in
/// the approvals; `j`/`k` (or arrows) in the log; nothing otherwise.
pub open spec fn action_of(pane: Pane, key: KeyEvent) -> ActionView {
    if key.code == KeyCode::Tab {
        ActionView::FocusNext
    } else if key.code == KeyCode::Char('c') && key.modifiers == MOD_CONTROL {
        ActionView::Quit
    } else if pane == Pane::Chat && key.code == KeyCode::Enter {
        ActionView::SubmitChat(Seq::empty())
    } else if pane == Pane::Chat && key.code is Char && key.modifiers == MOD_NONE {
        ActionView::InputChar(key.code->Char_0)
    } else if pane == Pane::Chat && key.code == KeyCode::Backspace {
        ActionView::InputBackspace
    } else if pane == Pane::Approvals && is_down(key.code) {
        ActionView::SelectNext
    } else if pane == Pane::Approvals && is_up(key.code) {
        ActionView::SelectPrev
    } else if pane == Pane::Approvals && key.code == KeyCode::Char('a') {
        ActionView::ApprovalDecide(ApprovalChoiceView::Approve)
    } else if pane == Pane::Approvals && key.code == KeyCode::Char('d') {
        ActionView::OpenDenyModal
    } else if pane == Pane::Approvals && key.code == KeyCode::Char('s') {
        ActionView::ApprovalDecide(ApprovalChoiceView::Skip)
    } else if pane == Pane::Log && is_down(key.code) {
        ActionView::SelectNext
    } else if pane == Pane::Log && is_up(key.code) {
        ActionView::SelectPrev
    } else {
        ActionView::NoOp
    }
}

/// The action a key press asks for in the focused pane.
pub fn dispatch(pane: Pane, key: KeyEvent) -> (res: Action)
    ensures
        res@ == action_of(pane, key),
{
    match (pane, key.code) {
        (_, KeyCode::Tab) => Action::FocusNext,
        (_, KeyCode::Char('c')) if key.modifiers == MOD_CONTROL => Action::Quit,
        (Pane::Chat, KeyCode::Enter) => Action::SubmitChat(String::new()),
        (Pane::Chat, KeyCode::Char(c)) if key.modifiers == MOD_NONE => Action::InputChar(c),
        (Pane::Chat, KeyCode::Backspace) => Action::InputBackspace,
        (Pane::Approvals, KeyCode::Char('j')) | (Pane::Approvals, KeyCode::Down) => Action::SelectNext,
        (Pane::Approvals, KeyCode::Char('k')) | (Pane::Approvals, KeyCode::Up) => Action::SelectPrev,
        (Pane::Approvals, KeyCode::Char('a')) => Action::ApprovalDecide(ApprovalChoice::Approve),
        (Pane::Approvals, KeyCode::Char('d')) => Action::OpenDenyModal,
        (Pane::Approvals, KeyCode::Char('s')) => Action::ApprovalDecide(ApprovalChoice::Skip),
        (Pane::Log, KeyCode::Char('j')) | (Pane::Log, KeyCode::Down) => Action::SelectNext,
        (Pane::Log, KeyCode::Char('k')) | (Pane::Log, KeyCode::Up) => Action::SelectPrev,
        _ => Action::NoOp,
    }
}

} // verus!
