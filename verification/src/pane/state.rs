//! Viewport state of a pane.

use vstd::prelude::*;
use crate::text::{decimal_text, push_decimal};

verus! {

/// Identity of the terminal a pane shows.
#[derive(Debug, Clone, Copy, PartialEq, Eq, Hash)]
pub struct TerminalId(pub u64);

/// Viewport state for a pane. Terminal identity, working directory, labels
/// and agent metadata live with the terminal.
pub struct PaneState {
    pub attached_terminal_id: TerminalId,
    /// Tab-local number used by the generated `pane N` label; reassigned when
    /// a live pane moves into another tab.
    pub auto_name_number: usize,
    /// Whether the user has seen this pane since its last change to idle
    /// (false: an agent finished while the user was elsewhere).
    pub seen: bool,
}

impl PaneState {
    /// A pane showing `attached_terminal_id`, numbered 1 and seen.
    pub fn new(attached_terminal_id: TerminalId) -> (r: Self)
        ensures
            r.attached_terminal_id == attached_terminal_id,
            r.auto_name_number == 1,
            r.seen,
    {
        PaneState { attached_terminal_id, auto_name_number: 1, seen: true }
    }

    /// The same pane renumbered; numbers start at 1.
    pub fn with_auto_name_number(self, number: usize) -> (r: Self)
        ensures
            r.attached_terminal_id == self.attached_terminal_id,
            r.seen == self.seen,
            r.auto_name_number == if number >= 1 { number } else { 1 },
    {
        let mut s = self;
        s.auto_name_number = if number >= 1 { number } else { 1 };
        s
    }

    /// The generated label, `pane N`.
    pub fn auto_name(&self) -> (r: String)
        ensures
            r@ == seq!['p', 'a', 'n', 'e', ' '] + decimal_text(self.auto_name_number as nat),
    {
        proof {
            reveal_strlit("pane ");
        }
        let mut out = String::from_str("pane ");
        push_decimal(&mut out, self.auto_name_number as u64);
        out
    }
}

} // verus!
