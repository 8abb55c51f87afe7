//! The session controller: the three-line window, the termination mode, the
//! timer, and the keystroke protocol that drives them.
use vstd::prelude::*;
use crate::line::{quote_line_spec, quote_rest_spec, word_count_spec, Line};
use crate::words;
use crate::words::is_generated_line;

verus! {

/// When the test stops.
pub enum TestMode {
    /// Stop once this many words have been typed correctly.
    WordCount(u32),
    /// Stop once this many seconds have elapsed since the first keystroke.
    TimeLimit(u64),
    /// Stop once the quote has been typed through. `remaining` holds the
    /// words not yet handed out to a line; `custom` the fixed quote replayed
    /// on reset, if one was supplied.
    QuoteMode { remaining: Vec<char>, custom: Option<Vec<char>> },
}

/// Whether the session clock is running: it starts at the first typed
/// character, not at session creation.
#[derive(Clone, Copy, Debug, PartialEq, Eq, Structural)]
pub enum Timer {
    NotStarted,
    /// The moment of the first keystroke, in milliseconds.
    StartedAt(u64),
}

/// One discrete input event handed to the session.
#[derive(Clone, Copy, Debug, PartialEq, Eq, Structural)]
pub enum InputEvent {
    /// A printable key.
    Char(char),
    Backspace,
    /// Restart the test (the tab key).
    Reset,
    /// Leave the test early (the escape key).
    Quit,
    /// A terminal resize: layout only, ignored by the session state.
    Resize,
}

/// The completed-word count of a line, as a spec value.
pub open spec fn line_words(l: Line) -> nat {
    word_count_spec(l.buffer@, l.expected@)
}

/// The machine limits under which a line's words can be counted.
pub open spec fn countable(l: Line) -> bool {
    l.expected@.len() < u32::MAX as nat && l.buffer@.len() < usize::MAX as nat
}

/// Everything the session carries while a test runs.
pub struct TypingTest {
    /// Whether the input loop continues.
    pub running: bool,
    /// Whether a summary is printed on exit; suppressed on manual quit.
    pub show_final_score: bool,
    /// The just-finished line, kept only for display.
    pub previous_line: Line,
    /// The active line receiving input.
    pub line: Line,
    /// The pre-generated lookahead line.
    pub next_line: Line,
    pub test_mode: TestMode,
    /// Words of all rotated-out lines; the active line's count is added on
    /// demand and never double-counted.
    pub completed_words: u32,
    pub timer: Timer,
}

/// What one rotation does to the line window, the counter and the source:
/// the finished line is archived, the lookahead becomes current, and a fresh
/// line drawn from the active source fills the lookahead.
pub open spec fn window_rotated(pre: TypingTest, post: TypingTest) -> bool {
    &&& post.completed_words == pre.completed_words + line_words(pre.line)
    &&& post.previous_line == pre.line
    &&& post.line == pre.next_line
    &&& post.next_line.buffer@.len() == 0
    &&& (match pre.test_mode {
        TestMode::QuoteMode { remaining, custom } => {
            &&& post.next_line.expected@ == quote_line_spec(remaining@)
            &&& (post.test_mode matches TestMode::QuoteMode { remaining: r2, custom: c2 }
                && r2@ == quote_rest_spec(remaining@) && c2 == custom)
        },
        _ => {
            &&& is_generated_line(post.next_line.expected@)
            &&& post.test_mode == pre.test_mode
        },
    })
}

/// A rotation on its own: the window advances and everything else stays.
pub open spec fn rotated(pre: TypingTest, post: TypingTest) -> bool {
    &&& window_rotated(pre, post)
    &&& post.running == pre.running
    &&& post.show_final_score == pre.show_final_score
    &&& post.timer == pre.timer
}

/// What a backspace does: the active buffer loses its last character when it
/// has one, and nothing else moves.
pub open spec fn backspaced(pre: TypingTest, post: TypingTest) -> bool {
    &&& post.line.expected@ == pre.line.expected@
    &&& (pre.line.buffer@.len() == 0 ==> post.line.buffer@ == pre.line.buffer@)
    &&& (pre.line.buffer@.len() > 0 ==> post.line.buffer@ == pre.line.buffer@.drop_last())
    &&& post.previous_line == pre.previous_line
    &&& post.next_line == pre.next_line
    &&& post.test_mode == pre.test_mode
    &&& post.completed_words == pre.completed_words
    &&& post.timer == pre.timer
    &&& post.running == pre.running
    &&& post.show_final_score == pre.show_final_score
}

/// What quitting does: the loop stops and the final score is suppressed.
pub open spec fn quit_applied(pre: TypingTest, post: TypingTest) -> bool {
    &&& !post.running
    &&& !post.show_final_score
    &&& post.previous_line == pre.previous_line
    &&& post.line == pre.line
    &&& post.next_line == pre.next_line
    &&& post.test_mode == pre.test_mode
    &&& post.completed_words == pre.completed_words
    &&& post.timer == pre.timer
}

/// What a reset does: counter and clock cleared, the previous slot emptied,
/// and both live lines regenerated from the active source. In quote mode the
/// custom quote is replayed when one was supplied; otherwise `fresh_quote`,
/// fetched by the caller from the outside text source, takes its place.
pub open spec fn reset_applied(
    pre: TypingTest,
    post: TypingTest,
    fresh_quote: Option<Vec<char>>,
) -> bool {
    &&& post.running == pre.running
    &&& post.show_final_score == pre.show_final_score
    &&& post.completed_words == 0
    &&& post.timer is NotStarted
    &&& post.previous_line.buffer@.len() == 0
    &&& post.previous_line.expected@.len() == 0
    &&& post.line.buffer@.len() == 0
    &&& post.next_line.buffer@.len() == 0
    &&& (match pre.test_mode {
        TestMode::QuoteMode { remaining: _, custom } => {
            let source = (match custom {
                Some(q) => q@,
                None => (match fresh_quote {
                    Some(f) => f@,
                    None => Seq::empty(),
                }),
            });
            &&& post.line.expected@ == quote_line_spec(source)
            &&& post.next_line.expected@ == quote_line_spec(quote_rest_spec(source))
            &&& (post.test_mode matches TestMode::QuoteMode { remaining: r2, custom: c2 }
                && r2@ == quote_rest_spec(quote_rest_spec(source)) && c2 == custom)
        },
        _ => {
            &&& is_generated_line(post.line.expected@)
            &&& is_generated_line(post.next_line.expected@)
            &&& post.test_mode == pre.test_mode
        },
    })
}

/// What one typed character does: the clock starts if it had not, then a
/// space on a finished line rotates the window, and any other character is
/// appended to the active buffer.
pub open spec fn char_applied(pre: TypingTest, post: TypingTest, c: char, now_ms: u64) -> bool {
    &&& post.timer == (match pre.timer {
        Timer::NotStarted => Timer::StartedAt(now_ms),
        t => t,
    })
    &&& post.running == pre.running
    &&& post.show_final_score == pre.show_final_score
    &&& (if c == ' ' && pre.line.buffer@.len() >= pre.line.expected@.len() {
        window_rotated(pre, post)
    } else {
        &&& post.line.expected@ == pre.line.expected@
        &&& post.line.buffer@ == pre.line.buffer@.push(c)
        &&& post.previous_line == pre.previous_line
        &&& post.next_line == pre.next_line
        &&& post.test_mode == pre.test_mode
        &&& post.completed_words == pre.completed_words
    })
}

/// Whether `ev` triggers a rotation in state `pre`: the completing space.
pub open spec fn rotation_event(pre: TypingTest, ev: InputEvent) -> bool {
    ev matches InputEvent::Char(c) && c == ' ' && pre.line.buffer@.len()
        >= pre.line.expected@.len()
}

/// Whether the test is over in state `t` at time `now_ms`, mode by mode.
pub open spec fn over_spec(t: TypingTest, now_ms: u64) -> bool {
    match t.test_mode {
        TestMode::WordCount(target) => t.completed_words + line_words(t.line) >= target,
        TestMode::TimeLimit(seconds) => (match t.timer {
            Timer::NotStarted => false,
            Timer::StartedAt(start) => (now_ms - start) / 1000 >= seconds,
        }),
        TestMode::QuoteMode { .. } => t.line.buffer@.len() >= t.line.expected@.len()
            && t.next_line.buffer@.len() >= t.next_line.expected@.len(),
    }
}

impl TypingTest {
    /// A fresh session in the given mode: both live lines drawn from the
    /// active source, nothing typed, counter at zero, clock not started.
    pub fn new(mode: TestMode) -> (r: TypingTest)
        ensures
            r.running,
            r.show_final_score,
            r.completed_words == 0,
            r.timer is NotStarted,
            r.previous_line.buffer@.len() == 0,
            r.previous_line.expected@.len() == 0,
            r.line.buffer@.len() == 0,
            r.next_line.buffer@.len() == 0,
            (match mode {
                TestMode::QuoteMode { remaining, custom } => {
                    &&& r.line.expected@ == quote_line_spec(remaining@)
                    &&& r.next_line.expected@ == quote_line_spec(quote_rest_spec(remaining@))
                    &&& (r.test_mode matches TestMode::QuoteMode { remaining: r2, custom: c2 }
                        && r2@ == quote_rest_spec(quote_rest_spec(remaining@)) && c2 == custom)
                },
                _ => {
                    &&& is_generated_line(r.line.expected@)
                    &&& is_generated_line(r.next_line.expected@)
                    &&& r.test_mode == mode
                },
            }),
    {
        let (line, next_line, test_mode) = match mode {
            TestMode::QuoteMode { mut remaining, custom } => {
                let l = Line::from_quote(&mut remaining);
                let n = Line::from_quote(&mut remaining);
                (l, n, TestMode::QuoteMode { remaining, custom })
            },
            m => (Line::new(), Line::new(), m),
        };
        TypingTest {
            running: true,
            show_final_score: true,
            previous_line: Line::empty(),
            line,
            next_line,
            test_mode,
            completed_words: 0,
            timer: Timer::NotStarted,
        }
    }

    /// The session's word count so far: the rotated-out words plus the
    /// active line's own count.
    pub fn word_count(&self) -> (r: u32)
        requires
            countable(self.line),
            self.completed_words + line_words(self.line) <= u32::MAX,
        ensures
            r == self.completed_words + line_words(self.line),
    {
        self.completed_words + self.line.word_count()
    }

    /// Rotate the window: archive the finished line, promote the lookahead,
    /// and draw a fresh lookahead from the active source.
    pub fn get_next_line(&mut self)
        requires
            countable(old(self).line),
            old(self).completed_words + line_words(old(self).line) <= u32::MAX,
        ensures
            rotated(*old(self), *final(self)),
    {
        let words = self.line.word_count();
        self.completed_words = self.completed_words + words;
        core::mem::swap(&mut self.line, &mut self.next_line);
        let mut fresh = match &mut self.test_mode {
            TestMode::QuoteMode { remaining, .. } => Line::from_quote(remaining),
            _ => Line::new(),
        };
        core::mem::swap(&mut self.next_line, &mut fresh);
        self.previous_line = fresh;
    }

    /// Stop the loop early and suppress the final score.
    pub fn quit(&mut self)
        ensures
            quit_applied(*old(self), *final(self)),
    {
        self.running = false;
        self.show_final_score = false;
    }

    /// Restart the test. The caller hands in a freshly fetched quote when
    /// the session runs in quote mode without a custom quote.
    pub fn reset(&mut self, fresh_quote: Option<Vec<char>>)
        requires
            (old(self).test_mode matches TestMode::QuoteMode { custom: None, .. })
                ==> fresh_quote is Some,
        ensures
            reset_applied(*old(self), *final(self), fresh_quote),
    {
        self.previous_line = Line::empty();
        self.completed_words = 0;
        self.timer = Timer::NotStarted;
        match &mut self.test_mode {
            TestMode::QuoteMode { remaining, custom } => {
                match custom {
                    Some(q) => {
                        let replay = words::copy_chars(q);
                        *remaining = replay;
                    },
                    None => {
                        match fresh_quote {
                            Some(f) => {
                                *remaining = f;
                            },
                            None => {
                                // ruled out by the precondition: a session in
                                // quote mode without a custom quote is always
                                // handed a fresh one
                                proof {
                                    assert(false);
                                }
                            },
                        }
                    },
                }
                self.line = Line::from_quote(remaining);
                self.next_line = Line::from_quote(remaining);
            },
            _ => {
                self.line = Line::new();
                self.next_line = Line::new();
            },
        }
    }

    /// Apply one input event: escape quits, backspace edits the active line,
    /// tab resets, a character starts the clock and either rotates (the
    /// completing space) or is appended; a resize changes nothing.
    pub fn handle_event(&mut self, ev: InputEvent, now_ms: u64, fresh_quote: Option<Vec<char>>)
        requires
            (ev matches InputEvent::Reset && old(self).test_mode matches TestMode::QuoteMode {
                custom: None,
                ..
            }) ==> fresh_quote is Some,
            rotation_event(*old(self), ev) ==> countable(old(self).line) && old(
                self,
            ).completed_words + line_words(old(self).line) <= u32::MAX,
        ensures
            (match ev {
                InputEvent::Quit => quit_applied(*old(self), *final(self)),
                InputEvent::Backspace => backspaced(*old(self), *final(self)),
                InputEvent::Reset => reset_applied(*old(self), *final(self), fresh_quote),
                InputEvent::Char(c) => char_applied(*old(self), *final(self), c, now_ms),
                InputEvent::Resize => *final(self) == *old(self),
            }),
    {
        match ev {
            InputEvent::Quit => self.quit(),
            InputEvent::Backspace => self.line.backspace(),
            InputEvent::Reset => self.reset(fresh_quote),
            InputEvent::Char(c) => {
                if matches!(self.timer, Timer::NotStarted) {
                    self.timer = Timer::StartedAt(now_ms);
                }
                if c == ' ' && self.line.done() {
                    self.get_next_line();
                } else {
                    self.line.add_char(c);
                }
            },
            InputEvent::Resize => {},
        }
    }

    /// Whether the test is over at time `now_ms`, per `over_spec`: the word
    /// target reached, the time limit elapsed, or the quote exhausted with
    /// both live lines finished.
    pub fn check_over(&self, now_ms: u64) -> (r: bool)
        requires
            (self.test_mode matches TestMode::WordCount(_)) ==> countable(self.line)
                && self.completed_words + line_words(self.line) <= u32::MAX,
            self.test_mode matches TestMode::TimeLimit(_) ==> (self.timer
                matches Timer::StartedAt(start) ==> now_ms >= start),
        ensures
            r == over_spec(*self, now_ms),
    {
        match &self.test_mode {
            TestMode::WordCount(target) => {
                let words = self.word_count();
                words >= *target
            },
            TestMode::TimeLimit(seconds) => {
                match &self.timer {
                    Timer::NotStarted => false,
                    Timer::StartedAt(start) => (now_ms - *start) / 1000 >= *seconds,
                }
            },
            TestMode::QuoteMode { .. } => self.line.done() && self.next_line.done(),
        }
    }
}

/// Which test the command-line flags ask for.
#[derive(Clone, Copy, Debug, PartialEq, Eq, Structural)]
pub enum ModePlan {
    /// A word-count test of this many words.
    Words(u32),
    /// A time-limit test of this many seconds.
    Seconds(u64),
    /// A quote test.
    Quote,
}

/// The word target when no flag picks a mode.
pub const DEFAULT_WORDS: u32 = 30;

/// Decide the test mode from the command-line flags. A custom quote implies
/// quote mode; at most one of a word target, a time limit and quote mode may
/// be asked for, and a conflict yields `None`; with nothing asked for, a
/// word-count test of `DEFAULT_WORDS`.
pub fn plan_mode(number: Option<u32>, time: Option<u64>, quote: bool, custom_quote: bool) -> (r:
    Option<ModePlan>)
    ensures
        ({
            let q = quote || custom_quote;
            let conflict = (time is Some && number is Some) || (time is Some && q) || (number
                is Some && q);
            &&& (r is None <==> conflict)
            &&& (!conflict ==> (match time {
                Some(t) => r == Some(ModePlan::Seconds(t)),
                None => (if q {
                    r == Some(ModePlan::Quote)
                } else {
                    match number {
                        Some(n) => r == Some(ModePlan::Words(n)),
                        None => r == Some(ModePlan::Words(DEFAULT_WORDS)),
                    }
                }),
            }))
        }),
{
    let q = quote || custom_quote;
    let t_set = time.is_some();
    let n_set = number.is_some();
    if t_set && n_set || t_set && q || n_set && q {
        return None;
    }
    match time {
        Some(t) => Some(ModePlan::Seconds(t)),
        None => {
            if q {
                Some(ModePlan::Quote)
            } else {
                match number {
                    Some(n) => Some(ModePlan::Words(n)),
                    None => Some(ModePlan::Words(DEFAULT_WORDS)),
                }
            }
        },
    }
}

/// The words each rotated-out line contributed, summed over a run of states.
pub open spec fn rotated_words_total(states: Seq<TypingTest>) -> nat
    decreases states.len(),
{
    if states.len() == 0 {
        0
    } else {
        rotated_words_total(states.drop_last()) + line_words(states.last().line)
    }
}

/// Law: over any chain of rotations that starts with a zero counter, the
/// cumulative completed-word counter ends at the sum of each rotated-out
/// line's word count at the moment it was rotated out.
pub proof fn lemma_rotation_accounting(states: Seq<TypingTest>)
    requires
        states.len() >= 1,
        states[0].completed_words == 0,
        forall|i: int| 0 <= i < states.len() - 1 ==> rotated(#[trigger] states[i], states[i + 1]),
    ensures
        states.last().completed_words == rotated_words_total(states.drop_last()),
    decreases states.len(),
{
    if states.len() == 1 {
        assert(states.drop_last().len() == 0);
    } else {
        let front = states.drop_last();
        assert(front[0] == states[0]);
        assert forall|i: int| 0 <= i < front.len() - 1 implies rotated(
            #[trigger] front[i],
            front[i + 1],
        ) by {
            assert(front[i] == states[i]);
            assert(front[i + 1] == states[i + 1]);
        }
        lemma_rotation_accounting(front);
        assert(rotated(states[states.len() - 2], states[states.len() - 1]));
        assert(front.last() == states[states.len() - 2]);
        assert(front.drop_last() =~= states.drop_last().drop_last());
    }
}

} // verus!
