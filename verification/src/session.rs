//! The per-line typing state machine: one keystroke token at a time is played
//! against a target line, updating the position, the accuracy counters, and
//! the feedback the terminal should show.

use vstd::prelude::*;

use crate::analytics::Analytics;
use crate::input::InputToken;

verus! {

/// One piece of visual feedback owed to the terminal for a keystroke: either
/// print `shown` styled as correct or incorrect, or move the cursor one
/// column left (after a backspace).
#[derive(Debug, Clone, Copy, PartialEq, Eq)]
pub enum Render {
    Glyph { shown: char, correct: bool },
    CursorLeft,
}

/// Whether the line is still being typed, was finished with an enter at its
/// end, or was abandoned with an escape.
#[derive(Debug, Clone, Copy, PartialEq, Eq)]
pub enum SessionStatus {
    InProgress,
    Completed,
    Escaped,
}

/// The whole state of one typing session: its status, the index of the next
/// target character to match, and the counters gathered so far.
#[derive(Debug, Clone, Copy, PartialEq, Eq)]
pub struct SessionState {
    pub status: SessionStatus,
    pub position: usize,
    pub analytics: Analytics,
}

impl SessionState {
    /// The state a session starts in: at position zero with zeroed counters.
    pub open spec fn initial_spec() -> SessionState {
        SessionState {
            status: SessionStatus::InProgress,
            position: 0,
            analytics: Analytics { errors: 0, total_input_chars: 0, line_length: 0 },
        }
    }

    /// Well-formedness against the target line: the position never passes the
    /// end of the line, the achieved length never exceeds the turns consumed,
    /// and while the line is in progress the achieved length is exactly the
    /// position.
    pub open spec fn wf(self, target: Seq<char>) -> bool {
        &&& self.position <= target.len()
        &&& self.analytics.line_length <= self.analytics.total_input_chars
        &&& (self.status is InProgress ==> self.analytics.line_length == self.position)
    }

    pub fn initial() -> (r: SessionState)
        ensures
            r == SessionState::initial_spec(),
    {
        SessionState {
            status: SessionStatus::InProgress,
            position: 0,
            analytics: Analytics { errors: 0, total_input_chars: 0, line_length: 0 },
        }
    }
}

/// The glyph shown for one comparison: the user's character styled correct on
/// a match, otherwise the target character styled incorrect.
pub open spec fn glyph_for(target_char: char, user_char: char) -> Render {
    if target_char == user_char {
        Render::Glyph { shown: user_char, correct: true }
    } else {
        Render::Glyph { shown: target_char, correct: false }
    }
}

/// How many of the `k` target characters starting at `pos` are not a space:
/// the errors a tab expansion charges over that stretch.
pub open spec fn space_mismatches(target: Seq<char>, pos: int, k: int) -> int
    decreases k,
{
    if k <= 0 {
        0
    } else {
        (if target[pos] == ' ' { 0int } else { 1int }) + space_mismatches(target, pos + 1, k - 1)
    }
}

/// The glyphs a tab expansion shows over `k` target characters from `pos`:
/// each target character compared against a space.
pub open spec fn tab_glyphs(target: Seq<char>, pos: int, k: int) -> Seq<Render>
    decreases k,
{
    if k <= 0 {
        Seq::empty()
    } else {
        seq![glyph_for(target[pos], ' ')] + tab_glyphs(target, pos + 1, k - 1)
    }
}

/// How many target characters a tab at `pos` consumes: up to four, stopping
/// at the end of the line.
pub open spec fn tab_reach(target: Seq<char>, pos: int) -> int {
    if target.len() - pos < 4 {
        target.len() - pos
    } else {
        4
    }
}

/// The transition of the typing session on one token, exactly one row of the
/// state machine per token kind, split on whether the position is still
/// inside the line or at its end.
pub open spec fn spec_step(target: Seq<char>, st: SessionState, tok: InputToken) -> SessionState
    recommends
        st.wf(target),
        st.status is InProgress,
        st.analytics.headroom(4),
{
    let pos = st.position as int;
    let len = target.len() as int;
    let a = st.analytics;
    match tok {
        InputToken::Character(c) => {
            if pos < len {
                SessionState {
                    status: SessionStatus::InProgress,
                    position: (st.position + 1) as usize,
                    analytics: Analytics {
                        errors: if c == target[pos] { a.errors } else { (a.errors + 1) as u64 },
                        total_input_chars: (a.total_input_chars + 1) as u64,
                        line_length: (a.line_length + 1) as u64,
                    },
                }
            } else {
                SessionState {
                    analytics: Analytics {
                        errors: if c == ' ' { a.errors } else { (a.errors + 1) as u64 },
                        ..a
                    },
                    ..st
                }
            }
        },
        InputToken::Tab => {
            if pos < len {
                let k = tab_reach(target, pos);
                SessionState {
                    status: SessionStatus::InProgress,
                    position: (pos + k) as usize,
                    analytics: Analytics {
                        errors: (a.errors + space_mismatches(target, pos, k)) as u64,
                        total_input_chars: (a.total_input_chars + k) as u64,
                        line_length: (a.line_length + k) as u64,
                    },
                }
            } else {
                SessionState {
                    analytics: Analytics { errors: (a.errors + 1) as u64, ..a },
                    ..st
                }
            }
        },
        InputToken::Backspace => {
            if a.line_length > 0 {
                SessionState {
                    status: SessionStatus::InProgress,
                    position: (st.position - 1) as usize,
                    analytics: Analytics {
                        errors: a.errors,
                        total_input_chars: (a.total_input_chars + 1) as u64,
                        line_length: (a.line_length - 1) as u64,
                    },
                }
            } else {
                st
            }
        },
        InputToken::Enter => {
            if pos < len {
                SessionState {
                    analytics: Analytics {
                        errors: (a.errors + 1) as u64,
                        total_input_chars: (a.total_input_chars + 1) as u64,
                        ..a
                    },
                    ..st
                }
            } else {
                SessionState {
                    status: SessionStatus::Completed,
                    position: st.position,
                    analytics: Analytics {
                        errors: a.errors,
                        total_input_chars: (a.total_input_chars + 1) as u64,
                        line_length: (a.line_length + 1) as u64,
                    },
                }
            }
        },
        InputToken::Escape => {
            SessionState { status: SessionStatus::Escaped, ..st }
        },
    }
}

/// The feedback owed to the terminal for one token: a glyph per comparison
/// made, a cursor move for an effective backspace, nothing otherwise.
pub open spec fn spec_render(target: Seq<char>, st: SessionState, tok: InputToken) -> Seq<
    Render,
> {
    let pos = st.position as int;
    let len = target.len() as int;
    match tok {
        InputToken::Character(c) => {
            if pos < len {
                seq![glyph_for(target[pos], c)]
            } else {
                seq![glyph_for(' ', c)]
            }
        },
        InputToken::Tab => {
            if pos < len {
                tab_glyphs(target, pos, tab_reach(target, pos))
            } else {
                Seq::empty()
            }
        },
        InputToken::Backspace => {
            if st.analytics.line_length > 0 {
                seq![Render::CursorLeft]
            } else {
                Seq::empty()
            }
        },
        InputToken::Enter => Seq::empty(),
        InputToken::Escape => Seq::empty(),
    }
}

proof fn lemma_space_mismatches_snoc(target: Seq<char>, pos: int, j: int)
    requires
        j >= 0,
    ensures
        space_mismatches(target, pos, j + 1) == space_mismatches(target, pos, j) + (
        if target[pos + j] == ' ' {
            0int
        } else {
            1int
        }),
    decreases j,
{
    if j == 0 {
        assert(space_mismatches(target, pos, 0) == 0);
        assert(space_mismatches(target, pos + 1, 0) == 0);
    } else {
        lemma_space_mismatches_snoc(target, pos + 1, j - 1);
    }
}

proof fn lemma_tab_glyphs_snoc(target: Seq<char>, pos: int, j: int)
    requires
        j >= 0,
    ensures
        tab_glyphs(target, pos, j + 1) =~= tab_glyphs(target, pos, j).push(
            glyph_for(target[pos + j], ' '),
        ),
    decreases j,
{
    if j == 0 {
        assert(tab_glyphs(target, pos, 0) =~= Seq::<Render>::empty());
        assert(tab_glyphs(target, pos + 1, 0) =~= Seq::<Render>::empty());
    } else {
        lemma_tab_glyphs_snoc(target, pos + 1, j - 1);
    }
}

/// Over any stretch, the errors a tab expansion charges lie between zero and
/// the stretch's length.
pub proof fn lemma_space_mismatches_bounds(target: Seq<char>, pos: int, k: int)
    ensures
        0 <= space_mismatches(target, pos, k),
        space_mismatches(target, pos, k) <= (if k <= 0 { 0int } else { k }),
    decreases k,
{
    if k > 0 {
        lemma_space_mismatches_bounds(target, pos + 1, k - 1);
    }
}

/// Plays one token against the target line, returning the successor state
/// and the feedback the terminal must show for this keystroke.
pub fn step(target: &Vec<char>, st: SessionState, tok: InputToken) -> (r: (
    SessionState,
    Vec<Render>,
))
    requires
        st.wf(target@),
        st.status is InProgress,
        st.analytics.headroom(4),
    ensures
        r.0 == spec_step(target@, st, tok),
        r.1@ == spec_render(target@, st, tok),
        r.0.wf(target@),
        st.analytics.errors <= r.0.analytics.errors <= st.analytics.errors + 4,
        st.analytics.total_input_chars <= r.0.analytics.total_input_chars
            <= st.analytics.total_input_chars + 4,
        r.0.analytics.line_length <= st.analytics.line_length + 4,
{
    let len = target.len();
    let mut renders: Vec<Render> = Vec::new();
    match tok {
        InputToken::Character(c) => {
            if st.position < len {
                let t = target[st.position];
                let correct = c == t;
                renders.push(Render::Glyph { shown: if correct { c } else { t }, correct });
                let new = SessionState {
                    status: SessionStatus::InProgress,
                    position: st.position + 1,
                    analytics: Analytics {
                        errors: if correct { st.analytics.errors } else { st.analytics.errors + 1 },
                        total_input_chars: st.analytics.total_input_chars + 1,
                        line_length: st.analytics.line_length + 1,
                    },
                };
                (new, renders)
            } else {
                let correct = c == ' ';
                renders.push(Render::Glyph { shown: if correct { c } else { ' ' }, correct });
                let new = SessionState {
                    analytics: Analytics {
                        errors: if correct { st.analytics.errors } else { st.analytics.errors + 1 },
                        ..st.analytics
                    },
                    ..st
                };
                (new, renders)
            }
        },
        InputToken::Tab => {
            if st.position < len {
                let ghost pos0 = st.position as int;
                let mut pos = st.position;
                let mut errors = st.analytics.errors;
                let mut total = st.analytics.total_input_chars;
                let mut length = st.analytics.line_length;
                let mut j: usize = 0;
                while j < 4 && pos < len
                    invariant
                        0 <= j <= 4,
                        pos == pos0 + j,
                        pos <= len,
                        len == target@.len(),
                        pos0 + 4 <= u64::MAX,
                        st.analytics.headroom(4),
                        errors == st.analytics.errors + space_mismatches(target@, pos0, j as int),
                        st.analytics.errors <= errors <= st.analytics.errors + j,
                        total == st.analytics.total_input_chars + j,
                        length == st.analytics.line_length + j,
                        renders@ =~= tab_glyphs(target@, pos0, j as int),
                    decreases 4 - j,
                {
                    let t = target[pos];
                    if t == ' ' {
                        renders.push(Render::Glyph { shown: ' ', correct: true });
                    } else {
                        renders.push(Render::Glyph { shown: t, correct: false });
                        errors = errors + 1;
                    }
                    total = total + 1;
                    length = length + 1;
                    pos = pos + 1;
                    j = j + 1;
                    proof {
                        lemma_space_mismatches_snoc(target@, pos0, j - 1);
                        lemma_tab_glyphs_snoc(target@, pos0, j - 1);
                    }
                }
                proof {
                    assert(j as int == tab_reach(target@, pos0));
                }
                let new = SessionState {
                    status: SessionStatus::InProgress,
                    position: pos,
                    analytics: Analytics {
                        errors,
                        total_input_chars: total,
                        line_length: length,
                    },
                };
                (new, renders)
            } else {
                let new = SessionState {
                    analytics: Analytics { errors: st.analytics.errors + 1, ..st.analytics },
                    ..st
                };
                (new, renders)
            }
        },
        InputToken::Backspace => {
            if st.analytics.line_length > 0 {
                renders.push(Render::CursorLeft);
                let new = SessionState {
                    status: SessionStatus::InProgress,
                    position: st.position - 1,
                    analytics: Analytics {
                        errors: st.analytics.errors,
                        total_input_chars: st.analytics.total_input_chars + 1,
                        line_length: st.analytics.line_length - 1,
                    },
                };
                (new, renders)
            } else {
                (st, renders)
            }
        },
        InputToken::Enter => {
            if st.position < len {
                let new = SessionState {
                    analytics: Analytics {
                        errors: st.analytics.errors + 1,
                        total_input_chars: st.analytics.total_input_chars + 1,
                        ..st.analytics
                    },
                    ..st
                };
                (new, renders)
            } else {
                let new = SessionState {
                    status: SessionStatus::Completed,
                    position: st.position,
                    analytics: Analytics {
                        errors: st.analytics.errors,
                        total_input_chars: st.analytics.total_input_chars + 1,
                        line_length: st.analytics.line_length + 1,
                    },
                };
                (new, renders)
            }
        },
        InputToken::Escape => {
            let new = SessionState { status: SessionStatus::Escaped, ..st };
            (new, renders)
        },
    }
}

/// One turn of the classified input stream: the invalid keystrokes counted
/// before the token are charged as errors first, then the token is played.
pub open spec fn spec_apply(
    target: Seq<char>,
    st: SessionState,
    tok: InputToken,
    invalid: u64,
) -> SessionState {
    let charged = SessionState {
        analytics: Analytics { errors: (st.analytics.errors + invalid) as u64, ..st.analytics },
        ..st
    };
    spec_step(target, charged, tok)
}

/// Folds a finite stream of classified inputs over the session, stopping as
/// soon as the session leaves `InProgress`.
pub open spec fn spec_run(
    target: Seq<char>,
    st: SessionState,
    inputs: Seq<(InputToken, u64)>,
) -> SessionState
    decreases inputs.len(),
{
    if inputs.len() == 0 || !(st.status is InProgress) {
        st
    } else {
        spec_run(target, spec_apply(target, st, inputs[0].0, inputs[0].1), inputs.skip(1))
    }
}

/// An upper bound on how much any counter can grow over a classified input
/// stream: each turn adds its invalid keystrokes plus at most five.
pub open spec fn input_cost(inputs: Seq<(InputToken, u64)>) -> int
    decreases inputs.len(),
{
    if inputs.len() == 0 {
        0
    } else {
        inputs[0].1 + 5 + input_cost(inputs.skip(1))
    }
}

/// Running a concatenated stream is running its halves in order.
pub proof fn lemma_run_concat(
    target: Seq<char>,
    st: SessionState,
    s1: Seq<(InputToken, u64)>,
    s2: Seq<(InputToken, u64)>,
)
    ensures
        spec_run(target, st, s1 + s2) == spec_run(target, spec_run(target, st, s1), s2),
    decreases s1.len(),
{
    if s1.len() == 0 {
        assert(s1 + s2 =~= s2);
    } else if !(st.status is InProgress) {
    } else {
        assert((s1 + s2)[0] == s1[0]);
        assert((s1 + s2).skip(1) =~= s1.skip(1) + s2);
        lemma_run_concat(target, spec_apply(target, st, s1[0].0, s1[0].1), s1.skip(1), s2);
    }
}

proof fn lemma_input_cost_nonneg(inputs: Seq<(InputToken, u64)>)
    ensures
        input_cost(inputs) >= 0,
    decreases inputs.len(),
{
    if inputs.len() > 0 {
        lemma_input_cost_nonneg(inputs.skip(1));
    }
}

proof fn lemma_input_cost_split(inputs: Seq<(InputToken, u64)>, i: int)
    requires
        0 <= i <= inputs.len(),
    ensures
        input_cost(inputs) == input_cost(inputs.take(i)) + input_cost(inputs.skip(i)),
    decreases i,
{
    if i == 0 {
        assert(inputs.take(0) =~= Seq::<(InputToken, u64)>::empty());
        assert(inputs.skip(0) =~= inputs);
    } else {
        lemma_input_cost_split(inputs.skip(1), i - 1);
        assert(inputs.take(i)[0] == inputs[0]);
        assert(inputs.take(i).skip(1) =~= inputs.skip(1).take(i - 1));
        assert(inputs.skip(i) =~= inputs.skip(1).skip(i - 1));
    }
}

/// Plays a whole classified input stream against one target line from the
/// start state, exactly as the interactive session would turn by turn, and
/// returns the state it ends in.
pub fn type_line(target: &Vec<char>, inputs: &Vec<(InputToken, u64)>) -> (r: SessionState)
    requires
        input_cost(inputs@) <= u64::MAX,
    ensures
        r == spec_run(target@, SessionState::initial_spec(), inputs@),
{
    let mut st = SessionState::initial();
    let mut i: usize = 0;
    proof {
        assert(inputs@.take(0) =~= Seq::<(InputToken, u64)>::empty());
    }
    while i < inputs.len()
        invariant
            0 <= i <= inputs@.len(),
            input_cost(inputs@) <= u64::MAX,
            st == spec_run(target@, SessionState::initial_spec(), inputs@.take(i as int)),
            st.wf(target@),
            st.analytics.errors <= input_cost(inputs@.take(i as int)),
            st.analytics.total_input_chars <= input_cost(inputs@.take(i as int)),
            st.analytics.line_length <= input_cost(inputs@.take(i as int)),
        decreases inputs@.len() - i,
    {
        let ghost prefix = inputs@.take(i as int);
        let ghost rest = inputs@.skip(i as int);
        proof {
            lemma_input_cost_split(inputs@, i as int);
            lemma_input_cost_nonneg(rest.skip(1));
            assert(rest[0] == inputs@[i as int]);
            assert(input_cost(rest) == inputs@[i as int].1 + 5 + input_cost(rest.skip(1)));
            lemma_input_cost_nonneg(prefix);
            assert(rest.skip(1) =~= inputs@.skip(i + 1));
        }
        let (tok, invalid) = inputs[i];
        if matches!(st.status, SessionStatus::InProgress) {
            let mut charged = st;
            charged.analytics.errors = st.analytics.errors + invalid;
            let (next, _renders) = step(target, charged, tok);
            st = next;
        }
        proof {
            let x = inputs@[i as int];
            let init = SessionState::initial_spec();
            let s_old = spec_run(target@, init, prefix);
            assert(inputs@.take(i + 1) =~= prefix + seq![x]);
            lemma_run_concat(target@, init, prefix, seq![x]);
            lemma_run_one(target@, s_old, x);
            lemma_input_cost_split(inputs@, i + 1);
            lemma_input_cost_nonneg(inputs@.skip(i + 1));
            assert(input_cost(inputs@.take(i + 1)) == input_cost(prefix) + x.1 + 5);
        }
        i = i + 1;
    }
    proof {
        assert(inputs@.take(inputs@.len() as int) =~= inputs@);
    }
    st
}

/// One classified input: the given character typed with no invalid
/// keystrokes before it.
pub open spec fn clean_character(c: char) -> (InputToken, u64) {
    (InputToken::Character(c), 0u64)
}

/// The classified inputs for `j` correctly typed characters of the target
/// starting at `pos`, with no invalid keystrokes before any of them.
pub open spec fn correct_inputs(target: Seq<char>, pos: int, j: int) -> Seq<(InputToken, u64)>
    decreases j,
{
    if j <= 0 {
        Seq::empty()
    } else {
        seq![clean_character(target[pos])] + correct_inputs(target, pos + 1, j - 1)
    }
}

proof fn lemma_run_one(target: Seq<char>, st: SessionState, x: (InputToken, u64))
    ensures
        spec_run(target, st, seq![x]) == (if st.status is InProgress {
            spec_apply(target, st, x.0, x.1)
        } else {
            st
        }),
{
    if st.status is InProgress {
        assert(seq![x].skip(1) =~= Seq::<(InputToken, u64)>::empty());
        assert(spec_run(
            target,
            spec_apply(target, st, x.0, x.1),
            Seq::<(InputToken, u64)>::empty(),
        ) == spec_apply(target, st, x.0, x.1));
    }
}

/// Typing only matching characters never charges an error: from any live
/// state, a stretch of `j` correct character tokens advances the position and
/// both counters by exactly `j` and leaves the error count alone.
pub proof fn lemma_correct_stretch(target: Seq<char>, st: SessionState, j: int)
    requires
        st.wf(target),
        st.status is InProgress,
        0 <= j,
        st.position + j <= target.len(),
        target.len() <= usize::MAX,
        st.analytics.total_input_chars + j <= u64::MAX,
        st.analytics.line_length + j <= u64::MAX,
    ensures
        (spec_run(target, st, correct_inputs(target, st.position as int, j)) == SessionState {
            status: SessionStatus::InProgress,
            position: (st.position + j) as usize,
            analytics: Analytics {
                errors: st.analytics.errors,
                total_input_chars: (st.analytics.total_input_chars + j) as u64,
                line_length: (st.analytics.line_length + j) as u64,
            },
        }),
    decreases j,
{
    let inputs = correct_inputs(target, st.position as int, j);
    if j == 0 {
        assert(inputs.len() == 0);
        assert(spec_run(target, st, inputs) == st);
        assert(st == SessionState {
            status: SessionStatus::InProgress,
            position: (st.position + 0) as usize,
            analytics: Analytics {
                errors: st.analytics.errors,
                total_input_chars: (st.analytics.total_input_chars + 0) as u64,
                line_length: (st.analytics.line_length + 0) as u64,
            },
        });
    } else {
        let st1 = spec_apply(target, st, inputs[0].0, inputs[0].1);
        assert(inputs[0].0 == InputToken::Character(target[st.position as int]));
        assert(st1 == SessionState {
            status: SessionStatus::InProgress,
            position: (st.position + 1) as usize,
            analytics: Analytics {
                errors: st.analytics.errors,
                total_input_chars: (st.analytics.total_input_chars + 1) as u64,
                line_length: (st.analytics.line_length + 1) as u64,
            },
        });
        lemma_correct_stretch(target, st1, j - 1);
        assert(inputs.skip(1) =~= correct_inputs(target, st1.position as int, j - 1));
    }
}

/// Law: a line of length `K` typed with zero mistakes and finished with the
/// terminating enter completes with no errors and `K + 1` consumed turns; the
/// enter at the end of the line advances the achieved length once more too,
/// so it ends at `K + 1`.
pub proof fn lemma_flawless_line(target: Seq<char>)
    requires
        target.len() <= usize::MAX,
        target.len() + 1 <= u64::MAX,
    ensures
        ({
            let end = spec_run(
                target,
                SessionState::initial_spec(),
                correct_inputs(target, 0, target.len() as int).push((InputToken::Enter, 0u64)),
            );
            &&& end.status is Completed
            &&& end.analytics.errors == 0
            &&& end.analytics.total_input_chars == target.len() + 1
            &&& end.analytics.line_length == target.len() + 1
        }),
{
    let k = target.len() as int;
    let init = SessionState::initial_spec();
    let chars = correct_inputs(target, 0, k);
    let x = (InputToken::Enter, 0u64);
    lemma_correct_stretch(target, init, k);
    let mid = spec_run(target, init, chars);
    assert(chars.push(x) =~= chars + seq![x]);
    lemma_run_concat(target, init, chars, seq![x]);
    lemma_run_one(target, mid, x);
}

/// Law: an escape after `j` correctly typed characters abandons the line with
/// the partial counters gathered so far: no errors, `j` consumed turns, and
/// an achieved length of `j`.
pub proof fn lemma_escape_partial(target: Seq<char>, j: int)
    requires
        0 <= j <= target.len(),
        target.len() <= usize::MAX,
    ensures
        ({
            let end = spec_run(
                target,
                SessionState::initial_spec(),
                correct_inputs(target, 0, j).push((InputToken::Escape, 0u64)),
            );
            &&& end.status is Escaped
            &&& end.position == j
            &&& end.analytics.errors == 0
            &&& end.analytics.total_input_chars == j
            &&& end.analytics.line_length == j
        }),
{
    let init = SessionState::initial_spec();
    let chars = correct_inputs(target, 0, j);
    let x = (InputToken::Escape, 0u64);
    lemma_correct_stretch(target, init, j);
    let mid = spec_run(target, init, chars);
    assert(chars.push(x) =~= chars + seq![x]);
    lemma_run_concat(target, init, chars, seq![x]);
    lemma_run_one(target, mid, x);
}

/// Law: one mismatched character mid-line charges exactly one error and still
/// advances the position and both counters by one.
pub proof fn lemma_single_mismatch(target: Seq<char>, st: SessionState, c: char)
    requires
        st.wf(target),
        st.status is InProgress,
        st.position < target.len(),
        target.len() <= usize::MAX,
        c != target[st.position as int],
        st.analytics.headroom(1),
    ensures
        (spec_step(target, st, InputToken::Character(c)) == SessionState {
            status: SessionStatus::InProgress,
            position: (st.position + 1) as usize,
            analytics: Analytics {
                errors: (st.analytics.errors + 1) as u64,
                total_input_chars: (st.analytics.total_input_chars + 1) as u64,
                line_length: (st.analytics.line_length + 1) as u64,
            },
        }),
{
}

/// Law: a backspace taken at a position `p > 0` moves the position to
/// `p - 1`, takes one off the achieved length, consumes one turn, charges no
/// error, and re-syncs the view: a following character token is compared
/// against the target character at `p - 1`.
pub proof fn lemma_backspace_resync(target: Seq<char>, st: SessionState, c: char)
    requires
        st.wf(target),
        st.status is InProgress,
        0 < st.position,
        target.len() <= usize::MAX,
        st.analytics.headroom(2),
    ensures
        ({
            let back = spec_step(target, st, InputToken::Backspace);
            let then = spec_step(target, back, InputToken::Character(c));
            &&& back.status is InProgress
            &&& back.position == st.position - 1
            &&& back.analytics.line_length == st.analytics.line_length - 1
            &&& back.analytics.total_input_chars == st.analytics.total_input_chars + 1
            &&& back.analytics.errors == st.analytics.errors
            &&& then.analytics.errors == back.analytics.errors + (
            if c == target[st.position - 1] {
                0int
            } else {
                1int
            })
            &&& then.position == st.position
        }),
{
}

/// Law: a tab with at least four characters remaining consumes exactly four
/// positions; each advances both counters, and the errors grow by exactly the
/// number of those four target characters that are not a space.
pub proof fn lemma_tab_full(target: Seq<char>, st: SessionState)
    requires
        st.wf(target),
        st.status is InProgress,
        st.position + 4 <= target.len(),
        target.len() <= usize::MAX,
        st.analytics.headroom(4),
    ensures
        ({
            let after = spec_step(target, st, InputToken::Tab);
            let miss = space_mismatches(target, st.position as int, 4);
            &&& after.status is InProgress
            &&& after.position == st.position + 4
            &&& after.analytics.total_input_chars == st.analytics.total_input_chars + 4
            &&& after.analytics.line_length == st.analytics.line_length + 4
            &&& after.analytics.errors == st.analytics.errors + miss
            &&& 0 <= miss <= 4
        }),
{
    lemma_space_mismatches_bounds(target, st.position as int, 4);
    assert(tab_reach(target, st.position as int) == 4);
}

/// Law: a tab with fewer than four characters remaining consumes only those
/// and stops at the end of the line; nothing is charged for the slots it
/// never reached, so the errors grow by at most the characters consumed.
pub proof fn lemma_tab_short(target: Seq<char>, st: SessionState)
    requires
        st.wf(target),
        st.status is InProgress,
        st.position < target.len(),
        target.len() - st.position < 4,
        target.len() <= usize::MAX,
        st.analytics.headroom(4),
    ensures
        ({
            let after = spec_step(target, st, InputToken::Tab);
            let rem = target.len() - st.position;
            let miss = space_mismatches(target, st.position as int, rem as int);
            &&& after.status is InProgress
            &&& after.position == target.len()
            &&& after.analytics.total_input_chars == st.analytics.total_input_chars + rem
            &&& after.analytics.line_length == st.analytics.line_length + rem
            &&& after.analytics.errors == st.analytics.errors + miss
            &&& 0 <= miss <= rem
        }),
{
    lemma_space_mismatches_bounds(
        target,
        st.position as int,
        target.len() - st.position as int,
    );
    assert(tab_reach(target, st.position as int) == target.len() - st.position);
}

} // verus!
