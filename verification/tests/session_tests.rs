use typing_test::line::Line;
use typing_test::session::{InputEvent, ModePlan, TestMode, Timer, TypingTest};
use typing_test::session::{plan_mode, DEFAULT_WORDS};

fn cv(s: &str) -> Vec<char> {
    s.chars().collect()
}

fn type_chars(test: &mut TypingTest, s: &str, now_ms: u64) {
    for ch in s.chars() {
        test.handle_event(InputEvent::Char(ch), now_ms, None);
    }
}

#[test]
fn word_count_mode_terminates_after_target_words() {
    // word-count mode with target 2: typing two words, each closed by a
    // space, ends the test with at least 2 words on the board
    let mut test = TypingTest::new(TestMode::WordCount(2));
    test.line = Line { buffer: cv(""), expected: cv("apple banana") };
    assert!(!test.check_over(0));
    type_chars(&mut test, "apple banan", 5);
    // one finished word and one still in progress: not over yet
    assert!(!test.check_over(5));
    type_chars(&mut test, "a", 5);
    test.handle_event(InputEvent::Char(' '), 5, None);
    assert!(test.check_over(5));
    assert!(test.word_count() >= 2);
}

#[test]
fn time_limit_mode_never_starts_without_keystrokes() {
    // time-limit mode, one second: with no keystroke the clock never starts,
    // so the test is not over however late it is polled
    let mut test = TypingTest::new(TestMode::TimeLimit(1));
    assert_eq!(test.timer, Timer::NotStarted);
    assert!(!test.check_over(0));
    assert!(!test.check_over(10_000));
    test.handle_event(InputEvent::Resize, 20_000, None);
    assert_eq!(test.timer, Timer::NotStarted);
    assert!(!test.check_over(30_000));
    test.handle_event(InputEvent::Quit, 40_000, None);
    assert!(!test.running);
    assert!(!test.show_final_score);
}

#[test]
fn time_limit_mode_clock_starts_at_first_character() {
    let mut test = TypingTest::new(TestMode::TimeLimit(1));
    test.handle_event(InputEvent::Char('a'), 500, None);
    assert_eq!(test.timer, Timer::StartedAt(500));
    // a later character does not restart the clock
    test.handle_event(InputEvent::Char('b'), 900, None);
    assert_eq!(test.timer, Timer::StartedAt(500));
    assert!(!test.check_over(1_400)); // 900 ms elapsed
    assert!(test.check_over(1_500)); // 1000 ms elapsed
}

#[test]
fn quote_mode_short_custom_quote_terminates_after_one_line() {
    // a five-word custom quote fits one line entirely: the lookahead line is
    // empty and done at once, and finishing the first line ends the test
    let quote = "a b c d e";
    let mut test = TypingTest::new(TestMode::QuoteMode {
        remaining: cv(quote),
        custom: Some(cv(quote)),
    });
    assert_eq!(test.line.expected, cv("a b c d e"));
    assert_eq!(test.next_line.expected, cv(""));
    assert!(test.next_line.done());
    assert!(!test.check_over(0));
    type_chars(&mut test, quote, 1);
    test.handle_event(InputEvent::Char(' '), 1, None);
    assert!(test.check_over(1));
    assert_eq!(test.completed_words, 5);
}

#[test]
fn rotation_archives_current_and_promotes_next() {
    let mut test = TypingTest::new(TestMode::WordCount(30));
    test.line = Line { buffer: cv("one two"), expected: cv("one two") };
    let lookahead = test.next_line.expected.clone();
    test.get_next_line();
    assert_eq!(test.previous_line.buffer, cv("one two"));
    assert_eq!(test.previous_line.expected, cv("one two"));
    assert_eq!(test.line.expected, lookahead);
    assert_eq!(test.line.buffer, cv(""));
    assert_eq!(test.next_line.buffer, cv(""));
    assert_eq!(test.completed_words, 2);
}

#[test]
fn rotations_accumulate_word_counts() {
    // the cumulative counter is exactly the sum of each rotated-out line's
    // count at the moment of its rotation
    let mut test = TypingTest::new(TestMode::WordCount(100));
    let mut expected_total = 0;
    for (typed, target, words) in [
        ("one two", "one two", 2),
        ("thrXe four", "three four", 1),
        ("five", "five six", 1),
    ] {
        test.line = Line { buffer: cv(typed), expected: cv(target) };
        expected_total += words;
        test.get_next_line();
        assert_eq!(test.completed_words, expected_total);
    }
}

#[test]
fn space_without_finished_line_is_typed_as_error() {
    let mut test = TypingTest::new(TestMode::WordCount(30));
    test.line = Line { buffer: cv(""), expected: cv("abc") };
    test.handle_event(InputEvent::Char(' '), 3, None);
    assert_eq!(test.line.buffer, cv(" "));
    assert_eq!(test.completed_words, 0);
}

#[test]
fn backspace_event_edits_current_line() {
    let mut test = TypingTest::new(TestMode::WordCount(30));
    test.line = Line { buffer: cv("abc"), expected: cv("abcd") };
    test.handle_event(InputEvent::Backspace, 3, None);
    assert_eq!(test.line.buffer, cv("ab"));
    test.handle_event(InputEvent::Backspace, 3, None);
    test.handle_event(InputEvent::Backspace, 3, None);
    test.handle_event(InputEvent::Backspace, 3, None);
    assert_eq!(test.line.buffer, cv(""));
    // backspace does not start the clock
    assert_eq!(test.timer, Timer::NotStarted);
}

#[test]
fn reset_zeroes_counter_and_clock() {
    let mut test = TypingTest::new(TestMode::WordCount(30));
    test.line = Line { buffer: cv("one two"), expected: cv("one two") };
    test.handle_event(InputEvent::Char(' '), 7, None);
    assert!(test.completed_words > 0);
    assert_eq!(test.timer, Timer::StartedAt(7));
    test.handle_event(InputEvent::Reset, 9, None);
    assert_eq!(test.completed_words, 0);
    assert_eq!(test.timer, Timer::NotStarted);
    assert_eq!(test.previous_line.expected, cv(""));
    assert_eq!(test.line.buffer, cv(""));
    assert!(test.running);
}

#[test]
fn reset_replays_custom_quote() {
    let quote = "never gonna give you up never gonna let you down never gonna run";
    let mut test = TypingTest::new(TestMode::QuoteMode {
        remaining: cv(quote),
        custom: Some(cv(quote)),
    });
    let first_line = test.line.expected.clone();
    type_chars(&mut test, "never gonna", 2);
    test.handle_event(InputEvent::Reset, 4, None);
    assert_eq!(test.line.expected, first_line);
    assert_eq!(test.line.buffer, cv(""));
    assert_eq!(test.completed_words, 0);
    match &test.test_mode {
        TestMode::QuoteMode { custom, .. } => assert_eq!(custom.as_ref().unwrap(), &cv(quote)),
        _ => panic!("mode changed on reset"),
    }
}

#[test]
fn reset_takes_fresh_quote_when_no_custom_one() {
    let mut test = TypingTest::new(TestMode::QuoteMode {
        remaining: cv("first text"),
        custom: None,
    });
    assert_eq!(test.line.expected, cv("first text"));
    test.handle_event(InputEvent::Reset, 2, Some(cv("second text entirely")));
    assert_eq!(test.line.expected, cv("second text entirely"));
    assert_eq!(test.completed_words, 0);
}

#[test]
fn quote_mode_consumes_line_len_words_per_line() {
    let quote = "w1 w2 w3 w4 w5 w6 w7 w8 w9 w10 w11 w12 w13 w14 w15 w16 w17 w18 w19 w20 w21 w22";
    let test = TypingTest::new(TestMode::QuoteMode { remaining: cv(quote), custom: None });
    assert_eq!(test.line.expected, cv("w1 w2 w3 w4 w5 w6 w7 w8 w9 w10"));
    assert_eq!(test.next_line.expected, cv("w11 w12 w13 w14 w15 w16 w17 w18 w19 w20"));
    match &test.test_mode {
        TestMode::QuoteMode { remaining, .. } => assert_eq!(remaining, &cv("w21 w22")),
        _ => panic!("quote mode lost"),
    }
}

#[test]
fn quit_suppresses_final_score() {
    let mut test = TypingTest::new(TestMode::WordCount(30));
    assert!(test.running);
    assert!(test.show_final_score);
    test.quit();
    assert!(!test.running);
    assert!(!test.show_final_score);
}

#[test]
fn plan_mode_rejects_conflicting_flags() {
    assert_eq!(plan_mode(Some(10), Some(30), false, false), None);
    assert_eq!(plan_mode(Some(10), None, true, false), None);
    assert_eq!(plan_mode(None, Some(30), true, false), None);
    assert_eq!(plan_mode(Some(10), None, false, true), None);
    assert_eq!(plan_mode(None, Some(30), false, true), None);
}

#[test]
fn plan_mode_picks_the_requested_test() {
    assert_eq!(plan_mode(None, None, false, false), Some(ModePlan::Words(DEFAULT_WORDS)));
    assert_eq!(plan_mode(Some(12), None, false, false), Some(ModePlan::Words(12)));
    assert_eq!(plan_mode(None, Some(45), false, false), Some(ModePlan::Seconds(45)));
    assert_eq!(plan_mode(None, None, true, false), Some(ModePlan::Quote));
    // a custom quote implies quote mode on its own
    assert_eq!(plan_mode(None, None, false, true), Some(ModePlan::Quote));
    assert_eq!(plan_mode(None, None, true, true), Some(ModePlan::Quote));
}

#[test]
fn word_count_adds_current_line_words() {
    let mut test = TypingTest::new(TestMode::WordCount(30));
    test.line = Line { buffer: cv("one two"), expected: cv("one two") };
    test.completed_words = 4;
    assert_eq!(test.word_count(), 6);
}
