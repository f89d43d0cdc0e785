use typing_trainer::session::{KeyEvent, SessionOutcome, SlotState, TypingSession};
use typing_trainer::stats::Stats;

fn type_str(session: &mut TypingSession, text: &str) {
    for c in text.chars() {
        let outcome = session.handle_key(KeyEvent::Char(c));
        assert_eq!(outcome, SessionOutcome::Continue);
    }
}

#[test]
fn flawless_typing_leaves_no_mistakes() {
    let mut session = TypingSession::from_line("function");
    type_str(&mut session, "function");
    assert_eq!(session.mistakes, 0);
    assert_eq!(session.cursor, 8);
    assert!(session.states.iter().all(|s| *s == SlotState::Correct));
}

#[test]
fn mismatch_counts_one_mistake_and_consumes_the_slot() {
    let mut session = TypingSession::from_line("function");
    let outcome = session.handle_key(KeyEvent::Char('x'));
    assert_eq!(outcome, SessionOutcome::Continue);
    assert_eq!(session.mistakes, 1);
    assert_eq!(session.cursor, 1);
    assert_eq!(session.states[0], SlotState::Incorrect);
}

#[test]
fn backspace_at_start_is_a_noop() {
    let mut session = TypingSession::from_line("function");
    let target = session.target.clone();
    let states = session.states.clone();
    let shown = session.shown.clone();
    let outcome = session.handle_key(KeyEvent::Backspace);
    assert_eq!(outcome, SessionOutcome::Continue);
    assert_eq!(session.target, target);
    assert_eq!(session.states, states);
    assert_eq!(session.shown, shown);
    assert_eq!(session.cursor, 0);
    assert_eq!(session.mistakes, 0);
}

#[test]
fn backspace_resets_slot_to_fallback_glyph() {
    // "function" has 'i' at the fixed fallback index 5.
    let mut session = TypingSession::from_line("function");
    session.handle_key(KeyEvent::Char('f'));
    let outcome = session.handle_key(KeyEvent::Backspace);
    assert_eq!(outcome, SessionOutcome::Continue);
    assert_eq!(session.cursor, 0);
    assert_eq!(session.states[0], SlotState::Untouched);
    assert_eq!(session.shown[0], 'i');
    assert_eq!(session.render_line(), "iunction");
}

#[test]
fn backspace_on_short_line_keeps_own_glyph() {
    let mut session = TypingSession::from_line("abc");
    session.handle_key(KeyEvent::Char('a'));
    session.handle_key(KeyEvent::Backspace);
    assert_eq!(session.shown[0], 'a');
    assert_eq!(session.render_line(), "abc");
}

#[test]
fn backspace_does_not_remove_mistakes() {
    let mut session = TypingSession::from_line("function");
    session.handle_key(KeyEvent::Char('x'));
    session.handle_key(KeyEvent::Backspace);
    assert_eq!(session.mistakes, 1);
    assert_eq!(session.cursor, 0);
}

#[test]
fn enter_accepts_with_zero_record_at_any_cursor() {
    let mut session = TypingSession::from_line("function");
    type_str(&mut session, "fun");
    let outcome = session.handle_key(KeyEvent::Enter);
    assert_eq!(outcome, SessionOutcome::Accept(Stats::default()));
    assert_eq!(session.cursor, 3);
}

#[test]
fn escape_stops_at_any_cursor() {
    let mut session = TypingSession::from_line("function");
    type_str(&mut session, "functi");
    let outcome = session.handle_key(KeyEvent::Esc);
    assert_eq!(outcome, SessionOutcome::Stop);
}

#[test]
fn keystrokes_past_the_end_are_ignored_and_session_goes_on() {
    let mut session = TypingSession::from_line("function");
    type_str(&mut session, "function");
    // Fully matched, but the session has not ended on its own: another
    // keystroke is still consumed, ignored, without any state change.
    let outcome = session.handle_key(KeyEvent::Char('z'));
    assert_eq!(outcome, SessionOutcome::Continue);
    assert_eq!(session.cursor, 8);
    assert_eq!(session.mistakes, 0);
    assert!(session.states.iter().all(|s| *s == SlotState::Correct));
}

#[test]
fn unrecognised_events_are_ignored() {
    let mut session = TypingSession::from_line("function");
    let outcome = session.handle_key(KeyEvent::Other);
    assert_eq!(outcome, SessionOutcome::Continue);
    assert_eq!(session.cursor, 0);
    assert_eq!(session.mistakes, 0);
}

#[test]
fn render_styles_judged_slots() {
    let mut session = TypingSession::from_line("function");
    session.handle_key(KeyEvent::Char('f'));
    session.handle_key(KeyEvent::Char('x'));
    let expected = format!(
        "{}{}{}{}{}{}nction",
        "\u{1b}[32m", "f", "\u{1b}[0m", "\u{1b}[31m", "u", "\u{1b}[0m"
    );
    assert_eq!(session.render_line(), expected);
}

#[test]
fn fresh_session_renders_the_bare_line() {
    let session = TypingSession::from_line("function");
    assert_eq!(session.render_line(), "function");
}
