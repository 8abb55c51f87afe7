use typing_test::line::{Cell, CellStyle, Line};
use typing_test::text::join;
use typing_test::words::LINE_LEN;

fn cv(s: &str) -> Vec<char> {
    s.chars().collect()
}

fn join_nums(from: usize, to: usize) -> Vec<char> {
    let words: Vec<Vec<char>> = (from..=to).map(|i| cv(&i.to_string())).collect();
    join(&words)
}

#[test]
fn join_test() {
    assert_eq!(join_nums(1, 5), cv("1 2 3 4 5"));
    let words: Vec<Vec<char>> = vec![cv("Here"), cv("are"), cv("some"), cv("words")];
    assert_eq!(join(&words), cv("Here are some words"));
}

#[test]
fn line_new_test() {
    for _ in 0..100 {
        let line = Line::new();
        assert_eq!(line.buffer, cv(""));
        assert_ne!(line.expected, cv(""));
    }
}

#[test]
fn line_from_quote_test() {
    let mut s = cv("This is a quote");
    let s_clone = s.clone();
    let line = Line::from_quote(&mut s);
    assert_eq!(s, cv(""));
    assert_eq!(line.expected, s_clone);
    let offset = 3;
    s = join_nums(1, LINE_LEN + offset);
    let line = Line::from_quote(&mut s);
    assert_eq!(s, join_nums(LINE_LEN + 1, LINE_LEN + offset));
    assert_eq!(line.expected, join_nums(1, LINE_LEN));
}

#[test]
fn line_empty_test() {
    let line = Line::empty();
    assert_eq!(line.buffer, cv(""));
    assert_eq!(line.expected, cv(""));
}

#[test]
fn line_index_test() {
    let mut line = Line::new();
    line.buffer = cv("abc 12");
    assert_eq!(line.index(), 6);
    line.buffer = cv("123");
    assert_eq!(line.index(), 3);
    line.buffer = cv("This one is pretty long");
    assert_eq!(line.index(), 23);
}

#[test]
fn line_word_count_test() {
    for (b, e, count) in [
        ("a b d", "a b c d", 2),
        ("a b c", "a b c d", 3),
        ("This is a quote!", "This is a quote!", 4),
        ("This is not a quote!", "This is a quote!", 2),
    ] {
        let line = Line { buffer: cv(b), expected: cv(e) };
        assert_eq!(line.word_count(), count);
    }
}

#[test]
fn line_backspace_test() {
    Line::empty().backspace(); // shouldn't panic
    let mut line = Line::new();
    line.buffer = cv("abc");
    for _ in 0..3 {
        line.backspace();
    }
    assert_eq!(line.buffer.len(), 0);
}

#[test]
fn line_add_char_test() {
    let mut line = Line::new();
    line.add_char('1');
    line.add_char('2');
    line.add_char('3');
    assert_eq!(line.buffer.len(), 3);
}

#[test]
fn line_done_test() {
    for (b, e, done) in [
        ("a b d", "a b c d", false),
        ("a b c", "a b c d", false),
        ("This is a quote!", "This is a quote!", true),
        ("This is not a quote!", "This is a quote!", true),
        ("This is not a quote!", "This is a quote!", true),
        ("123", "1234", false),
    ] {
        let line = Line { buffer: cv(b), expected: cv(e) };
        assert_eq!(line.done(), done);
    }
}

#[test]
fn line_word_count_empty_expected() {
    // an empty target counts zero words, whatever was typed
    let line = Line { buffer: cv(""), expected: cv("") };
    assert_eq!(line.word_count(), 0);
    let line = Line { buffer: cv("stray"), expected: cv("") };
    assert_eq!(line.word_count(), 0);
}

#[test]
fn line_word_count_overtyped() {
    // the scan stops at the target's end and still credits a correct word
    let line = Line { buffer: cv("a b cXYZ"), expected: cv("a b c") };
    assert_eq!(line.word_count(), 3);
    let line = Line { buffer: cv("a b dXYZ"), expected: cv("a b c") };
    assert_eq!(line.word_count(), 2);
}

#[test]
fn line_backspace_on_empty_is_noop() {
    let mut line = Line { buffer: cv(""), expected: cv("abc") };
    line.backspace();
    assert_eq!(line.buffer, cv(""));
    assert_eq!(line.expected, cv("abc"));
    line.backspace();
    assert_eq!(line.buffer, cv(""));
}

#[test]
fn line_add_char_then_backspace_restores() {
    for ch in [' ', 'x', 'é', '漢'] {
        let mut line = Line { buffer: cv("partia"), expected: cv("partial words") };
        let before = line.buffer.clone();
        line.add_char(ch);
        line.backspace();
        assert_eq!(line.buffer, before);
        assert_eq!(line.expected, cv("partial words"));
    }
}

#[test]
fn line_word_count_monotone_while_correct() {
    // typing a target correctly never lowers the count, and the count never
    // exceeds the target's word count
    let expected = cv("one two three");
    let mut line = Line { buffer: cv(""), expected: expected.clone() };
    let mut last = 0;
    for &ch in expected.iter() {
        line.add_char(ch);
        let now = line.word_count();
        assert!(now >= last);
        assert!(now <= 3);
        last = now;
    }
    assert_eq!(line.word_count(), 3);
}

#[test]
fn line_done_iff_index_reaches_expected() {
    let mut line = Line { buffer: cv(""), expected: cv("ab") };
    assert!(!line.done());
    line.add_char('a');
    assert!(!line.done());
    line.add_char('x');
    assert!(line.done()); // wrong characters still count for completion
    line.add_char('y');
    assert!(line.done()); // over-typed stays done
    let empty_target = Line { buffer: cv(""), expected: cv("") };
    assert!(empty_target.done()); // an empty target is done from construction
}

#[test]
fn line_draw_classifies_each_position() {
    // target "ab cd", typed "aX d" plus one over-typed character
    let line = Line { buffer: cv("aX de"), expected: cv("ab c") };
    let cells = line.draw();
    assert_eq!(cells.len(), 5);
    assert_eq!(cells[0], Cell { ch: 'a', style: CellStyle::Completed });
    assert_eq!(cells[1], Cell { ch: 'X', style: CellStyle::Error });
    assert_eq!(cells[2], Cell { ch: ' ', style: CellStyle::Completed });
    assert_eq!(cells[3], Cell { ch: 'd', style: CellStyle::Error });
    assert_eq!(cells[4], Cell { ch: 'e', style: CellStyle::Error });
}

#[test]
fn line_draw_space_typed_for_letter_is_inverted() {
    let line = Line { buffer: cv("a  "), expected: cv("abc") };
    let cells = line.draw();
    assert_eq!(cells.len(), 3);
    assert_eq!(cells[0], Cell { ch: 'a', style: CellStyle::Completed });
    assert_eq!(cells[1], Cell { ch: ' ', style: CellStyle::ErrorSpace });
    assert_eq!(cells[2], Cell { ch: ' ', style: CellStyle::ErrorSpace });
}

#[test]
fn line_draw_pending_positions_are_uncompleted() {
    let line = Line { buffer: cv("a"), expected: cv("abc") };
    let cells = line.draw();
    assert_eq!(cells.len(), 3);
    assert_eq!(cells[0], Cell { ch: 'a', style: CellStyle::Completed });
    assert_eq!(cells[1], Cell { ch: 'b', style: CellStyle::Uncompleted });
    assert_eq!(cells[2], Cell { ch: 'c', style: CellStyle::Uncompleted });
}

#[test]
fn line_from_quote_short_source_takes_all() {
    let mut s = cv("just three words");
    let line = Line::from_quote(&mut s);
    assert_eq!(line.expected, cv("just three words"));
    assert_eq!(s, cv(""));
    // a second take from the drained source gives an empty target
    let line2 = Line::from_quote(&mut s);
    assert_eq!(line2.expected, cv(""));
    assert_eq!(s, cv(""));
}

#[test]
fn line_new_has_ten_words() {
    let line = Line::new();
    let words: Vec<String> = line
        .expected
        .iter()
        .collect::<String>()
        .split(' ')
        .map(|w| w.to_string())
        .collect();
    assert_eq!(words.len(), LINE_LEN);
    for w in words {
        assert!(!w.is_empty());
    }
}
