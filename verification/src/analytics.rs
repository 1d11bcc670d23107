//! The three accuracy counters carried through one typed line and summed
//! across a whole practice session.

use vstd::prelude::*;

verus! {

/// The counters gathered while one line is typed: how many keystrokes were
/// wrong, how many keystrokes consumed a turn, and how far the committed
/// position in the line advanced.
#[derive(Debug, Clone, Copy, PartialEq, Eq)]
pub struct Analytics {
    /// Mismatched characters plus invalid or illegal keystrokes.
    pub errors: u64,
    /// Every keystroke that consumed a turn: character entries, tab-expansion
    /// slots, backspaces, and the terminating enter.
    pub total_input_chars: u64,
    /// Keystrokes that advanced the committed position in the line.
    pub line_length: u64,
}

impl Analytics {
    /// All three counters can still grow by `k` without leaving `u64`.
    pub open spec fn headroom(self, k: int) -> bool {
        &&& self.errors + k <= u64::MAX
        &&& self.total_input_chars + k <= u64::MAX
        &&& self.line_length + k <= u64::MAX
    }

    pub fn new(errors: u64, total_input_chars: u64, line_length: u64) -> (r: Analytics)
        ensures
            r.errors == errors,
            r.total_input_chars == total_input_chars,
            r.line_length == line_length,
    {
        Analytics { errors, total_input_chars, line_length }
    }

    /// Field-wise addition: folds one line's counters into session totals.
    pub fn combine(self, other: Analytics) -> (r: Analytics)
        requires
            self.errors + other.errors <= u64::MAX,
            self.total_input_chars + other.total_input_chars <= u64::MAX,
            self.line_length + other.line_length <= u64::MAX,
        ensures
            r.errors == self.errors + other.errors,
            r.total_input_chars == self.total_input_chars + other.total_input_chars,
            r.line_length == self.line_length + other.line_length,
    {
        Analytics {
            errors: self.errors + other.errors,
            total_input_chars: self.total_input_chars + other.total_input_chars,
            line_length: self.line_length + other.line_length,
        }
    }

    /// Keystrokes spent beyond the length finally achieved.
    pub fn excess_characters(self) -> (r: u64)
        requires
            self.line_length <= self.total_input_chars,
        ensures
            r == self.total_input_chars - self.line_length,
    {
        self.total_input_chars - self.line_length
    }
}

} // verus!
