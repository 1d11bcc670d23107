use typedrill::analytics::Analytics;
use typedrill::input::{classify_key, first_valid, InputToken, RawKey};
use typedrill::session::{step, type_line, Render, SessionState, SessionStatus};

fn chars(s: &str) -> Vec<char> {
    s.chars().collect()
}

fn typed(s: &str) -> Vec<(InputToken, u64)> {
    s.chars().map(|c| (InputToken::Character(c), 0u64)).collect()
}

#[test]
fn flawless_line_counts() {
    // Typing a 3-character line with zero mistakes and a final enter.
    let target = chars("cat");
    let mut inputs = typed("cat");
    inputs.push((InputToken::Enter, 0));
    let end = type_line(&target, &inputs);
    assert_eq!(end.status, SessionStatus::Completed);
    assert_eq!(end.analytics.errors, 0);
    assert_eq!(end.analytics.total_input_chars, 4);
    // The terminating enter at the end of the line advances the achieved
    // length once more as well.
    assert_eq!(end.analytics.line_length, 4);
}

#[test]
fn empty_line_completes_on_enter() {
    let target = chars("");
    let inputs = vec![(InputToken::Enter, 0)];
    let end = type_line(&target, &inputs);
    assert_eq!(end.status, SessionStatus::Completed);
    assert_eq!(end.analytics.errors, 0);
    assert_eq!(end.analytics.total_input_chars, 1);
    assert_eq!(end.analytics.line_length, 1);
}

#[test]
fn single_mismatch_advances() {
    let target = chars("cat");
    let end = type_line(&target, &typed("cot"));
    assert_eq!(end.status, SessionStatus::InProgress);
    assert_eq!(end.position, 3);
    assert_eq!(end.analytics.errors, 1);
    assert_eq!(end.analytics.total_input_chars, 3);
    assert_eq!(end.analytics.line_length, 3);
}

#[test]
fn mismatch_renders_target_character() {
    // On error the target character is shown styled incorrect, never the
    // character the user actually typed.
    let target = chars("cat");
    let st = SessionState::initial();
    let (after, renders) = step(&target, st, InputToken::Character('x'));
    assert_eq!(renders, vec![Render::Glyph { shown: 'c', correct: false }]);
    assert_eq!(after.analytics.errors, 1);
    assert_eq!(after.position, 1);
}

#[test]
fn match_renders_user_character() {
    let target = chars("cat");
    let st = SessionState::initial();
    let (after, renders) = step(&target, st, InputToken::Character('c'));
    assert_eq!(renders, vec![Render::Glyph { shown: 'c', correct: true }]);
    assert_eq!(after.analytics.errors, 0);
}

#[test]
fn backspace_resyncs_position() {
    let target = chars("cat");
    // Type "ca", take one backspace, then retype the second character.
    let inputs = vec![
        (InputToken::Character('c'), 0),
        (InputToken::Character('a'), 0),
        (InputToken::Backspace, 0),
    ];
    let end = type_line(&target, &inputs);
    assert_eq!(end.status, SessionStatus::InProgress);
    assert_eq!(end.position, 1);
    assert_eq!(end.analytics.line_length, 1);
    assert_eq!(end.analytics.total_input_chars, 3);
    assert_eq!(end.analytics.errors, 0);
    // The next character is compared against the target at the new position.
    let (after, _) = step(&target, end, InputToken::Character('a'));
    assert_eq!(after.analytics.errors, 0);
    assert_eq!(after.position, 2);
}

#[test]
fn backspace_at_start_changes_nothing() {
    let target = chars("cat");
    let st = SessionState::initial();
    let (after, renders) = step(&target, st, InputToken::Backspace);
    assert_eq!(after, st);
    assert!(renders.is_empty());
}

#[test]
fn backspace_emits_cursor_move() {
    let target = chars("cat");
    let st = type_line(&target, &typed("c"));
    let (_, renders) = step(&target, st, InputToken::Backspace);
    assert_eq!(renders, vec![Render::CursorLeft]);
}

#[test]
fn tab_consumes_four_positions() {
    // "a b c" from position 0: a tab expands over 'a', ' ', 'b', ' '; the
    // two spaces match, the two letters do not.
    let target = chars("a b c");
    let st = SessionState::initial();
    let (after, renders) = step(&target, st, InputToken::Tab);
    assert_eq!(after.position, 4);
    assert_eq!(after.analytics.errors, 2);
    assert_eq!(after.analytics.total_input_chars, 4);
    assert_eq!(after.analytics.line_length, 4);
    assert_eq!(
        renders,
        vec![
            Render::Glyph { shown: 'a', correct: false },
            Render::Glyph { shown: ' ', correct: true },
            Render::Glyph { shown: 'b', correct: false },
            Render::Glyph { shown: ' ', correct: true },
        ]
    );
}

#[test]
fn tab_stops_at_end_of_line() {
    // Only two characters remain: the tab consumes those two and stops,
    // charging nothing for the two slots it never reached.
    let target = chars("hi");
    let st = SessionState::initial();
    let (after, renders) = step(&target, st, InputToken::Tab);
    assert_eq!(after.position, 2);
    assert_eq!(after.status, SessionStatus::InProgress);
    assert_eq!(after.analytics.errors, 2);
    assert_eq!(after.analytics.total_input_chars, 2);
    assert_eq!(after.analytics.line_length, 2);
    assert_eq!(renders.len(), 2);
}

#[test]
fn tab_at_end_of_line_is_one_error() {
    let target = chars("hi");
    let mid = type_line(&target, &typed("hi"));
    let (after, renders) = step(&target, mid, InputToken::Tab);
    assert_eq!(after.analytics.errors, mid.analytics.errors + 1);
    assert_eq!(after.analytics.total_input_chars, mid.analytics.total_input_chars);
    assert_eq!(after.analytics.line_length, mid.analytics.line_length);
    assert_eq!(after.position, mid.position);
    assert!(renders.is_empty());
}

#[test]
fn escape_returns_partial_counters() {
    // Escape after exactly 3 correct characters of a 10-character line.
    let target = chars("abcdefghij");
    let mut inputs = typed("abc");
    inputs.push((InputToken::Escape, 0));
    let end = type_line(&target, &inputs);
    assert_eq!(end.status, SessionStatus::Escaped);
    assert_eq!(end.analytics.errors, 0);
    assert_eq!(end.analytics.total_input_chars, 3);
    assert_eq!(end.analytics.line_length, 3);
}

#[test]
fn enter_mid_line_is_a_mistake() {
    let target = chars("cat");
    let st = type_line(&target, &typed("c"));
    let (after, renders) = step(&target, st, InputToken::Enter);
    assert_eq!(after.status, SessionStatus::InProgress);
    assert_eq!(after.position, 1);
    assert_eq!(after.analytics.errors, 1);
    assert_eq!(after.analytics.total_input_chars, 2);
    assert_eq!(after.analytics.line_length, 1);
    assert!(renders.is_empty());
}

#[test]
fn character_at_end_of_line_compares_to_blank() {
    let target = chars("hi");
    let mid = type_line(&target, &typed("hi"));
    // A space matches the blank target: no error, nothing else moves.
    let (after_space, r1) = step(&target, mid, InputToken::Character(' '));
    assert_eq!(after_space.analytics.errors, 0);
    assert_eq!(after_space.analytics.total_input_chars, 2);
    assert_eq!(after_space.analytics.line_length, 2);
    assert_eq!(after_space.position, 2);
    assert_eq!(r1, vec![Render::Glyph { shown: ' ', correct: true }]);
    // Any other character mismatches the blank target and shows it.
    let (after_x, r2) = step(&target, mid, InputToken::Character('x'));
    assert_eq!(after_x.analytics.errors, 1);
    assert_eq!(after_x.analytics.total_input_chars, 2);
    assert_eq!(r2, vec![Render::Glyph { shown: ' ', correct: false }]);
}

#[test]
fn invalid_keystrokes_charge_errors_first() {
    // Two invalid keystrokes before the escape are still counted.
    let target = chars("cat");
    let inputs = vec![(InputToken::Escape, 2)];
    let end = type_line(&target, &inputs);
    assert_eq!(end.status, SessionStatus::Escaped);
    assert_eq!(end.analytics.errors, 2);
    assert_eq!(end.analytics.total_input_chars, 0);
}

#[test]
fn classify_recognizes_the_closed_set() {
    assert_eq!(classify_key(RawKey::Char('q')), Some(InputToken::Character('q')));
    assert_eq!(classify_key(RawKey::Backspace), Some(InputToken::Backspace));
    assert_eq!(classify_key(RawKey::Tab), Some(InputToken::Tab));
    assert_eq!(classify_key(RawKey::Enter), Some(InputToken::Enter));
    assert_eq!(classify_key(RawKey::Escape), Some(InputToken::Escape));
    assert_eq!(classify_key(RawKey::Other), None);
}

#[test]
fn first_valid_counts_invalid_prefix() {
    let keys = vec![RawKey::Other, RawKey::Other, RawKey::Char('z'), RawKey::Enter];
    assert_eq!(first_valid(&keys), Some((InputToken::Character('z'), 2)));
    let valid_at_once = vec![RawKey::Enter];
    assert_eq!(first_valid(&valid_at_once), Some((InputToken::Enter, 0)));
    let none_valid = vec![RawKey::Other, RawKey::Other];
    assert_eq!(first_valid(&none_valid), None);
    let empty: Vec<RawKey> = vec![];
    assert_eq!(first_valid(&empty), None);
}

#[test]
fn analytics_fold_and_excess() {
    let a = Analytics::new(1, 10, 8);
    let b = Analytics::new(2, 5, 4);
    let sum = a.combine(b);
    assert_eq!(sum.errors, 3);
    assert_eq!(sum.total_input_chars, 15);
    assert_eq!(sum.line_length, 12);
    assert_eq!(sum.excess_characters(), 3);
}
