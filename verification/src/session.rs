//! The interactive line-typing state machine.
//!
//! A session owns one target line.  Every keystroke acts on the active slot:
//! a matching character marks it correct, a mismatch marks it incorrect and
//! still consumes the slot, backspace steps back and clears a slot, Enter
//! accepts the line with a zero-valued record, and Escape abandons the whole
//! run.  A session never ends on its own, not even when the whole line has
//! been typed correctly: only Enter or Escape ends it.  The session state is
//! modelled by `SessionModel`, and every transition is the spec function
//! `session_step`, so properties of whole keystroke sequences can be proved
//! once about the model and carried over to the executable code.

use vstd::prelude::*;
use vstd::std_specs::vec::vec_index_mut;
use vstd::string::StringExecFns;

use crate::render::green_of;
use crate::render::green_str;
use crate::render::red_of;
use crate::render::red_str;
use crate::stats::Stats;
use crate::stats::zero_stats;
use crate::text::line_chars;

verus! {

/// Display state of one character slot of the line being typed.
#[derive(Clone, Copy, Debug, PartialEq, Eq, Structural)]
pub enum SlotState {
    Untouched,
    Correct,
    Incorrect,
}

/// A keyboard event as the session understands it.  Input that carries no
/// character and is none of the named keys arrives as `Other` and is ignored.
#[derive(Clone, Copy, Debug, PartialEq, Eq, Structural)]
pub enum KeyEvent {
    Esc,
    Enter,
    Char(char),
    Backspace,
    Other,
}

/// What the caller must do after a keystroke: keep feeding events, stop the
/// whole run (Escape), or accept the line with the given per-line record
/// (Enter, which always yields the zero-valued record).
#[derive(Clone, Copy, Debug, PartialEq, Eq, Structural)]
pub enum SessionOutcome {
    Continue,
    Stop,
    Accept(Stats),
}

/// The mathematical state of a typing session.
pub ghost struct SessionModel {
    /// The characters of the target line.
    pub target: Seq<char>,
    /// Match state of each slot.
    pub states: Seq<SlotState>,
    /// The glyph an untouched slot displays; after a backspace reset this is
    /// the fallback glyph rather than the slot's own character.
    pub shown: Seq<char>,
    /// Index of the active slot; equals the line length when the whole line
    /// has been consumed.
    pub cursor: int,
    /// Number of mismatched keystrokes so far; never decremented.
    pub mistakes: int,
}

/// The glyph a slot shows after a backspace reset: the character at the
/// fixed fallback index 5 of the target line, or the slot's own character
/// when the line has no index 5.
pub open spec fn fallback_glyph(target: Seq<char>, i: int) -> char {
    if target.len() > 5 {
        target[5]
    } else {
        target[i]
    }
}

impl SessionModel {
    /// Slots before the cursor have been judged, slots from the cursor on
    /// are untouched, and every displayed glyph is the slot's own character
    /// or the fallback glyph.
    pub open spec fn wf(self) -> bool {
        &&& self.states.len() == self.target.len()
        &&& self.shown.len() == self.target.len()
        &&& 0 <= self.cursor <= self.target.len()
        &&& 0 <= self.mistakes
        &&& forall|i: int| 0 <= i < self.cursor ==> self.states[i] != SlotState::Untouched
        &&& forall|i: int|
            self.cursor <= i < self.states.len() ==> self.states[i] == SlotState::Untouched
        &&& forall|i: int|
            0 <= i < self.shown.len() ==> self.shown[i] == self.target[i] || self.shown[i]
                == fallback_glyph(self.target, i)
    }
}

/// The state of a fresh session on the given line: cursor at the start, no
/// mistakes, every slot untouched and showing its own character.
pub open spec fn init_model(target: Seq<char>) -> SessionModel {
    SessionModel {
        target: target,
        states: Seq::new(target.len(), |i: int| SlotState::Untouched),
        shown: target,
        cursor: 0,
        mistakes: 0,
    }
}

/// The session state after one keystroke.  Escape, Enter and unrecognised
/// events leave the state unchanged; a character keystroke past the end of
/// the line is ignored.
pub open spec fn session_step(m: SessionModel, key: KeyEvent) -> SessionModel {
    match key {
        KeyEvent::Backspace => {
            if m.cursor == 0 {
                m
            } else {
                let c = m.cursor - 1;
                SessionModel {
                    states: m.states.update(c, SlotState::Untouched),
                    shown: m.shown.update(c, fallback_glyph(m.target, c)),
                    cursor: c,
                    ..m
                }
            }
        },
        KeyEvent::Char(ch) => {
            if m.cursor >= m.target.len() {
                m
            } else if ch == m.target[m.cursor] {
                SessionModel {
                    states: m.states.update(m.cursor, SlotState::Correct),
                    cursor: m.cursor + 1,
                    ..m
                }
            } else {
                SessionModel {
                    states: m.states.update(m.cursor, SlotState::Incorrect),
                    cursor: m.cursor + 1,
                    mistakes: m.mistakes + 1,
                    ..m
                }
            }
        },
        _ => m,
    }
}

/// What a keystroke tells the caller: Escape stops the run, Enter accepts
/// the line with the zero-valued record, everything else continues.
pub open spec fn session_outcome(key: KeyEvent) -> SessionOutcome {
    match key {
        KeyEvent::Esc => SessionOutcome::Stop,
        KeyEvent::Enter => SessionOutcome::Accept(zero_stats()),
        _ => SessionOutcome::Continue,
    }
}

/// The session state after a whole sequence of keystrokes.
pub open spec fn run_keys(m: SessionModel, keys: Seq<KeyEvent>) -> SessionModel
    decreases keys.len(),
{
    if keys.len() == 0 {
        m
    } else {
        run_keys(session_step(m, keys[0]), keys.subrange(1, keys.len() as int))
    }
}

/// Every keystroke preserves the session invariant.
pub proof fn lemma_step_preserves_wf(m: SessionModel, key: KeyEvent)
    requires
        m.wf(),
    ensures
        session_step(m, key).wf(),
{
}

/// Backspace with the cursor at the start of the line is a no-op: the state
/// after the keystroke is identical to the state before it.
pub proof fn lemma_backspace_at_zero_is_noop(m: SessionModel)
    requires
        m.cursor == 0,
    ensures
        session_step(m, KeyEvent::Backspace) == m,
{
}

/// A matching keystroke at the active slot marks it correct and advances the
/// cursor without adding a mistake.
pub proof fn lemma_match_adds_no_mistake(m: SessionModel, ch: char)
    requires
        m.wf(),
        m.cursor < m.target.len(),
        ch == m.target[m.cursor],
    ensures
        session_step(m, KeyEvent::Char(ch)).mistakes == m.mistakes,
        session_step(m, KeyEvent::Char(ch)).cursor == m.cursor + 1,
        session_step(m, KeyEvent::Char(ch)).states[m.cursor] == SlotState::Correct,
{
}

/// A mismatched keystroke at the active slot adds exactly one mistake and
/// still advances the cursor by one: a mismatch consumes the slot.
pub proof fn lemma_mismatch_consumes_slot(m: SessionModel, ch: char)
    requires
        m.wf(),
        m.cursor < m.target.len(),
        ch != m.target[m.cursor],
    ensures
        session_step(m, KeyEvent::Char(ch)).mistakes == m.mistakes + 1,
        session_step(m, KeyEvent::Char(ch)).cursor == m.cursor + 1,
        session_step(m, KeyEvent::Char(ch)).states[m.cursor] == SlotState::Incorrect,
{
}

/// A run of keystrokes that each match the character at the then-active slot
/// adds no mistakes and advances the cursor once per keystroke.
pub proof fn lemma_matching_run_adds_no_mistakes(m: SessionModel, keys: Seq<KeyEvent>)
    requires
        m.wf(),
        m.cursor + keys.len() <= m.target.len(),
        forall|i: int| 0 <= i < keys.len() ==> keys[i] == KeyEvent::Char(m.target[m.cursor + i]),
    ensures
        run_keys(m, keys).mistakes == m.mistakes,
        run_keys(m, keys).cursor == m.cursor + keys.len(),
    decreases keys.len(),
{
    if keys.len() > 0 {
        assert(keys[0] == KeyEvent::Char(m.target[m.cursor + 0]));
        let m1 = session_step(m, keys[0]);
        lemma_step_preserves_wf(m, keys[0]);
        let rest = keys.subrange(1, keys.len() as int);
        assert forall|i: int| 0 <= i < rest.len() implies rest[i] == KeyEvent::Char(
            m1.target[m1.cursor + i],
        ) by {
            assert(rest[i] == keys[i + 1]);
        }
        lemma_matching_run_adds_no_mistakes(m1, rest);
    }
}

/// Typing a prefix of the target line exactly, starting from a fresh
/// session, produces zero mistakes.
pub proof fn lemma_flawless_typing(target: Seq<char>, keys: Seq<KeyEvent>)
    requires
        keys.len() <= target.len(),
        forall|i: int| 0 <= i < keys.len() ==> keys[i] == KeyEvent::Char(target[i]),
    ensures
        run_keys(init_model(target), keys).mistakes == 0,
        run_keys(init_model(target), keys).cursor == keys.len(),
{
    lemma_matching_run_adds_no_mistakes(init_model(target), keys);
}

/// One interactive typing session over a single line.
pub struct TypingSession {
    /// The characters of the target line.
    pub target: Vec<char>,
    /// Match state of each slot.
    pub states: Vec<SlotState>,
    /// The glyph an untouched slot displays.
    pub shown: Vec<char>,
    /// Index of the active slot.
    pub cursor: usize,
    /// Number of mismatched keystrokes so far.
    pub mistakes: u64,
}

impl View for TypingSession {
    type V = SessionModel;

    open spec fn view(&self) -> SessionModel {
        SessionModel {
            target: self.target@,
            states: self.states@,
            shown: self.shown@,
            cursor: self.cursor as int,
            mistakes: self.mistakes as int,
        }
    }
}

impl TypingSession {
    /// Start a session on the given line.
    pub fn new(target: Vec<char>) -> (s: TypingSession)
        ensures
            s@ == init_model(target@),
            s@.wf(),
    {
        let n = target.len();
        let mut states: Vec<SlotState> = Vec::new();
        let mut shown: Vec<char> = Vec::new();
        let mut i: usize = 0;
        while i < n
            invariant
                n == target@.len(),
                i <= n,
                states@.len() == i as int,
                forall|j: int| 0 <= j < i ==> states@[j] == SlotState::Untouched,
                shown@ == target@.take(i as int),
            decreases n - i,
        {
            states.push(SlotState::Untouched);
            shown.push(target[i]);
            i = i + 1;
            proof {
                assert(shown@ =~= target@.take(i as int));
            }
        }
        let s = TypingSession { target, states, shown, cursor: 0, mistakes: 0 };
        proof {
            assert(s@.states =~= init_model(s.target@).states);
            assert(s@.shown =~= init_model(s.target@).shown);
        }
        s
    }

    /// Start a session on the characters of the given line.
    pub fn from_line(line: &str) -> (s: TypingSession)
        ensures
            s@ == init_model(line@),
            s@.wf(),
    {
        TypingSession::new(line_chars(line))
    }

    /// Apply one keystroke: the state moves to `session_step` of the old
    /// state and the caller is told whether to continue, stop the run, or
    /// accept the line with a zero-valued record.
    pub fn handle_key(&mut self, key: KeyEvent) -> (r: SessionOutcome)
        requires
            old(self)@.wf(),
            old(self).mistakes < u64::MAX,
        ensures
            final(self)@ == session_step(old(self)@, key),
            final(self)@.wf(),
            r == session_outcome(key),
    {
        let r = match key {
            KeyEvent::Esc => SessionOutcome::Stop,
            KeyEvent::Enter => SessionOutcome::Accept(Stats::default()),
            KeyEvent::Backspace => {
                if self.cursor > 0 {
                    self.cursor = self.cursor - 1;
                    let glyph = if self.target.len() > 5 {
                        self.target[5]
                    } else {
                        self.target[self.cursor]
                    };
                    let slot = vec_index_mut(&mut self.states, self.cursor);
                    *slot = SlotState::Untouched;
                    let shown_slot = vec_index_mut(&mut self.shown, self.cursor);
                    *shown_slot = glyph;
                }
                SessionOutcome::Continue
            },
            KeyEvent::Char(ch) => {
                if self.cursor < self.target.len() {
                    let matched = self.target[self.cursor] == ch;
                    let slot = vec_index_mut(&mut self.states, self.cursor);
                    *slot = if matched {
                        SlotState::Correct
                    } else {
                        SlotState::Incorrect
                    };
                    if !matched {
                        self.mistakes = self.mistakes + 1;
                    }
                    self.cursor = self.cursor + 1;
                }
                SessionOutcome::Continue
            },
            KeyEvent::Other => SessionOutcome::Continue,
        };
        proof {
            lemma_step_preserves_wf(old(self)@, key);
        }
        r
    }
}

/// What one slot contributes to the rendered line: its bare glyph when
/// untouched, its character wrapped in the green or red escape pair when
/// judged.
pub open spec fn slot_glyphs(m: SessionModel, i: int) -> Seq<char>
    recommends
        m.wf(),
        0 <= i < m.target.len(),
{
    match m.states[i] {
        SlotState::Untouched => seq![m.shown[i]],
        SlotState::Correct => green_of(seq![m.target[i]]),
        SlotState::Incorrect => red_of(seq![m.target[i]]),
    }
}

/// The rendered form of the first `i` slots, in order.
pub open spec fn rendered_upto(m: SessionModel, i: int) -> Seq<char>
    recommends
        m.wf(),
        0 <= i <= m.target.len(),
    decreases i,
{
    if i <= 0 {
        Seq::empty()
    } else {
        rendered_upto(m, i - 1) + slot_glyphs(m, i - 1)
    }
}

/// The whole rendered line: every slot's contribution, concatenated.
pub open spec fn rendered_of(m: SessionModel) -> Seq<char>
    recommends
        m.wf(),
{
    rendered_upto(m, m.target.len() as int)
}

impl TypingSession {
    /// The styled feedback line for the current state, one contribution per
    /// slot, ready to be printed over the previous render.
    pub fn render_line(&self) -> (r: String)
        requires
            self@.wf(),
        ensures
            r@ == rendered_of(self@),
    {
        let mut r = String::new();
        let n = self.target.len();
        let mut i: usize = 0;
        while i < n
            invariant
                self@.wf(),
                n == self.target@.len(),
                i <= n,
                r@ == rendered_upto(self@, i as int),
            decreases n - i,
        {
            match self.states[i] {
                SlotState::Untouched => {
                    r.push(self.shown[i]);
                    proof {
                        assert(r@ =~= rendered_upto(self@, i as int) + slot_glyphs(
                            self@,
                            i as int,
                        ));
                    }
                },
                SlotState::Correct => {
                    let mut one = String::new();
                    one.push(self.target[i]);
                    let styled = green_str(one.as_str());
                    r.append(styled.as_str());
                    proof {
                        assert(one@ =~= seq![self.target@[i as int]]);
                    }
                },
                SlotState::Incorrect => {
                    let mut one = String::new();
                    one.push(self.target[i]);
                    let styled = red_str(one.as_str());
                    r.append(styled.as_str());
                    proof {
                        assert(one@ =~= seq![self.target@[i as int]]);
                    }
                },
            }
            i = i + 1;
        }
        r
    }
}

} // verus!
