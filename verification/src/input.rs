//! Classification of raw terminal key events into the closed set of
//! semantic tokens the typing session understands.

use vstd::prelude::*;

verus! {

/// One raw key event as the terminal delivers it. Anything the session does
/// not recognize arrives as `Other`.
#[derive(Debug, Clone, Copy, PartialEq, Eq)]
pub enum RawKey {
    Char(char),
    Backspace,
    Tab,
    Enter,
    Escape,
    Other,
}

/// One recognized keystroke, exactly one produced per classified read.
#[derive(Debug, Clone, Copy, PartialEq, Eq)]
pub enum InputToken {
    Character(char),
    Backspace,
    Tab,
    Enter,
    Escape,
}

/// The token a raw key maps to, or `None` for an invalid keystroke.
pub open spec fn spec_classify(k: RawKey) -> Option<InputToken> {
    match k {
        RawKey::Char(c) => Some(InputToken::Character(c)),
        RawKey::Backspace => Some(InputToken::Backspace),
        RawKey::Tab => Some(InputToken::Tab),
        RawKey::Enter => Some(InputToken::Enter),
        RawKey::Escape => Some(InputToken::Escape),
        RawKey::Other => None,
    }
}

/// Maps one raw key event to its semantic token; invalid events yield `None`.
pub fn classify_key(k: RawKey) -> (r: Option<InputToken>)
    ensures
        r == spec_classify(k),
{
    match k {
        RawKey::Char(c) => Some(InputToken::Character(c)),
        RawKey::Backspace => Some(InputToken::Backspace),
        RawKey::Tab => Some(InputToken::Tab),
        RawKey::Enter => Some(InputToken::Enter),
        RawKey::Escape => Some(InputToken::Escape),
        RawKey::Other => None,
    }
}

/// Scans key events in order and stops at the first valid one, returning its
/// token together with the count of invalid events that preceded it; `None`
/// when no event in the sequence is valid.
pub fn first_valid(keys: &Vec<RawKey>) -> (r: Option<(InputToken, u64)>)
    ensures
        match r {
            None => forall|i: int|
                0 <= i < keys@.len() ==> #[trigger] spec_classify(keys@[i]) is None,
            Some((t, n)) => {
                &&& n < keys@.len()
                &&& forall|i: int| 0 <= i < n ==> #[trigger] spec_classify(keys@[i]) is None
                &&& spec_classify(keys@[n as int]) == Some(t)
            },
        },
{
    let mut i: usize = 0;
    while i < keys.len()
        invariant
            0 <= i <= keys@.len(),
            forall|j: int| 0 <= j < i ==> #[trigger] spec_classify(keys@[j]) is None,
        decreases keys@.len() - i,
    {
        match classify_key(keys[i]) {
            Some(t) => {
                return Some((t, i as u64));
            },
            None => {
                i = i + 1;
            },
        }
    }
    None
}

} // verus!
