//! One line of the typing test: a target text, the characters typed against
//! it, the per-character rendering classification, and the completed-word
//! count.
use vstd::prelude::*;
use crate::text;
use crate::text::{drop_words, join_spec, split_spec, take_words};
use crate::words::{is_generated_line, next_line, LINE_LEN};

verus! {

/// How one position of a rendered line is painted.
#[derive(Clone, Copy, Debug, PartialEq, Eq, Structural)]
pub enum CellStyle {
    /// An expected character not yet typed: dim.
    Uncompleted,
    /// A typed character that matches the expected one: bright.
    Completed,
    /// A wrong or over-typed character: error foreground.
    Error,
    /// A space typed where another character was expected: error background,
    /// so the mistake stays visible.
    ErrorSpace,
}

/// One styled character of a rendered line.
#[derive(Clone, Copy, Debug, PartialEq, Eq, Structural)]
pub struct Cell {
    pub ch: char,
    pub style: CellStyle,
}

/// How position `i` of a line with typed text `buf` and target `exp` is
/// painted.
pub open spec fn cell_spec(buf: Seq<char>, exp: Seq<char>, i: int) -> Cell {
    if i >= buf.len() {
        Cell { ch: exp[i], style: CellStyle::Uncompleted }
    } else if i >= exp.len() {
        Cell { ch: buf[i], style: CellStyle::Error }
    } else if buf[i] == exp[i] {
        Cell { ch: buf[i], style: CellStyle::Completed }
    } else if buf[i] == ' ' {
        Cell { ch: buf[i], style: CellStyle::ErrorSpace }
    } else {
        Cell { ch: buf[i], style: CellStyle::Error }
    }
}

/// The crediting scan over `buf` (the typed characters with one synthetic
/// trailing space) against the target `exp`, from position `i`, where
/// `correct` says whether every comparison so far in the current word
/// matched. A word is credited at each space of the target reached with
/// `correct` still holding, and once more when the scan steps past the end
/// of the target.
pub open spec fn scan_count(buf: Seq<char>, exp: Seq<char>, i: int, correct: bool) -> nat
    decreases buf.len() - i,
{
    if i >= buf.len() {
        0
    } else if i >= exp.len() {
        if correct {
            1
        } else {
            0
        }
    } else {
        let credit: nat = if correct && exp[i] == ' ' {
            1
        } else {
            0
        };
        let at_boundary = if exp[i] == ' ' {
            true
        } else {
            correct
        };
        let still = if buf[i] != exp[i] {
            false
        } else {
            at_boundary
        };
        credit + scan_count(buf, exp, i + 1, still)
    }
}

/// Completed-word count of a line: the crediting scan over the typed buffer
/// with one synthetic trailing space; an empty target counts zero words.
pub open spec fn word_count_spec(buffer: Seq<char>, expected: Seq<char>) -> nat {
    if expected.len() == 0 {
        0
    } else {
        scan_count(buffer.push(' '), expected, 0, true)
    }
}

/// Number of space-delimited words of `expected`; zero when it is empty.
pub open spec fn num_words_spec(expected: Seq<char>) -> nat {
    if expected.len() == 0 {
        0
    } else {
        split_spec(expected).len()
    }
}

/// The typed buffer matches the target exactly as far as it goes.
pub open spec fn is_correct_prefix(buffer: Seq<char>, expected: Seq<char>) -> bool {
    buffer.len() <= expected.len() && (forall|i: int|
        0 <= i < buffer.len() ==> buffer[i] == expected[i])
}

/// The target a quote hands to one line: its first `LINE_LEN` words, joined
/// with single spaces.
pub open spec fn quote_line_spec(s: Seq<char>) -> Seq<char> {
    join_spec(take_words(split_spec(s), LINE_LEN as int))
}

/// What remains of a quote after one line is taken from it: the leftover
/// words, rejoined with single spaces.
pub open spec fn quote_rest_spec(s: Seq<char>) -> Seq<char> {
    join_spec(drop_words(split_spec(s), LINE_LEN as int))
}

/// The target text of one line and the characters the user has typed for it.
#[derive(Clone, Debug)]
pub struct Line {
    pub buffer: Vec<char>,
    pub expected: Vec<char>,
}

impl Line {
    /// A fresh line: empty buffer, `LINE_LEN` random corpus words as target.
    pub fn new() -> (r: Line)
        ensures
            r.buffer@.len() == 0,
            is_generated_line(r.expected@),
            r.expected@.len() > 0,
    {
        Line { buffer: Vec::new(), expected: next_line() }
    }

    /// Take the first `LINE_LEN` words of `source` as a fresh line's target,
    /// leaving the remaining words in `source`, rejoined with single spaces.
    pub fn from_quote(source: &mut Vec<char>) -> (r: Line)
        ensures
            r.buffer@.len() == 0,
            r.expected@ == quote_line_spec(old(source)@),
            final(source)@ == quote_rest_spec(old(source)@),
    {
        let ghost s0 = split_spec(old(source)@);
        let mut pieces = text::split_words(source);
        proof {
            assert(pieces@.len() == s0.len());
        }
        let cut = if pieces.len() < LINE_LEN {
            pieces.len()
        } else {
            LINE_LEN
        };
        let rest = pieces.split_off(cut);
        proof {
            assert(pieces.deep_view() =~~= take_words(s0, LINE_LEN as int));
            assert(rest.deep_view() =~~= drop_words(s0, LINE_LEN as int));
        }
        let expected = text::join(&pieces);
        let remainder = text::join(&rest);
        *source = remainder;
        Line { buffer: Vec::new(), expected }
    }

    /// A line with no target at all: the placeholder for the previous-line
    /// slot before anything has been completed.
    pub fn empty() -> (r: Line)
        ensures
            r.buffer@.len() == 0,
            r.expected@.len() == 0,
    {
        Line { buffer: Vec::new(), expected: Vec::new() }
    }

    /// The cursor column: how many characters have been typed so far.
    pub fn index(&self) -> (r: usize)
        ensures
            r == self.buffer@.len(),
    {
        self.buffer.len()
    }

    /// The number of correctly completed words typed on this line.
    pub fn word_count(&self) -> (r: u32)
        requires
            self.expected@.len() < u32::MAX as nat,
            self.buffer@.len() < usize::MAX as nat,
        ensures
            r as nat == word_count_spec(self.buffer@, self.expected@),
    {
        if self.expected.len() == 0 {
            return 0;
        }
        let ghost buf = self.buffer@.push(' ');
        let ghost exp = self.expected@;
        let ghost total = scan_count(buf, exp, 0, true);
        proof {
            lemma_scan_le_spaces(buf, exp, 0, true);
            text::lemma_spaces_from_bound(exp, 0);
        }
        let mut count: u32 = 0;
        let mut correct: bool = true;
        let mut i: usize = 0;
        while i <= self.buffer.len() && i < self.expected.len()
            invariant
                buf == self.buffer@.push(' '),
                exp == self.expected@,
                exp.len() < u32::MAX as nat,
                self.buffer@.len() < usize::MAX as nat,
                i <= buf.len(),
                total == count as nat + scan_count(buf, exp, i as int, correct),
                total <= u32::MAX as nat,
            decreases buf.len() - i,
        {
            let c = if i < self.buffer.len() {
                self.buffer[i]
            } else {
                ' '
            };
            proof {
                assert(buf[i as int] == c);
            }
            let e = self.expected[i];
            let ghost pre_correct = correct;
            if e == ' ' {
                if correct {
                    proof {
                        assert(scan_count(buf, exp, i as int, pre_correct) >= 1);
                    }
                    count = count + 1;
                }
                correct = true;
            }
            if c != e {
                correct = false;
            }
            proof {
                assert(scan_count(buf, exp, i as int, pre_correct) == (if pre_correct && exp[i
                    as int] == ' ' {
                    1 as nat
                } else {
                    0 as nat
                }) + scan_count(buf, exp, i as int + 1, correct));
            }
            i += 1;
        }
        if i <= self.buffer.len() {
            if correct {
                proof {
                    assert(scan_count(buf, exp, i as int, correct) == 1);
                }
                count = count + 1;
            } else {
                proof {
                    assert(scan_count(buf, exp, i as int, correct) == 0);
                }
            }
        } else {
            proof {
                assert(i as int == buf.len());
                assert(scan_count(buf, exp, i as int, correct) == 0);
            }
        }
        count
    }

    /// Remove the last typed character; on an empty buffer this is a no-op.
    pub fn backspace(&mut self)
        ensures
            final(self).expected == old(self).expected,
            old(self).buffer@.len() == 0 ==> final(self).buffer@ == old(self).buffer@,
            old(self).buffer@.len() > 0 ==> final(self).buffer@ == old(self).buffer@.drop_last(),
    {
        self.buffer.pop();
    }

    /// Append one typed character; typing past the target is allowed and is
    /// rendered as an error.
    pub fn add_char(&mut self, ch: char)
        ensures
            final(self).expected == old(self).expected,
            final(self).buffer@ == old(self).buffer@.push(ch),
    {
        self.buffer.push(ch);
    }

    /// The per-character rendering of this line, classified per `cell_spec`.
    pub fn draw(&self) -> (r: Vec<Cell>)
        ensures
            r@.len() == (if self.buffer@.len() >= self.expected@.len() {
                self.buffer@.len()
            } else {
                self.expected@.len()
            }),
            forall|i: int|
                0 <= i < r@.len() ==> r@[i] == cell_spec(self.buffer@, self.expected@, i),
    {
        let n = if self.buffer.len() >= self.expected.len() {
            self.buffer.len()
        } else {
            self.expected.len()
        };
        let mut out: Vec<Cell> = Vec::new();
        let mut i: usize = 0;
        while i < n
            invariant
                i <= n,
                n == (if self.buffer@.len() >= self.expected@.len() {
                    self.buffer@.len()
                } else {
                    self.expected@.len()
                }),
                out@.len() == i as int,
                forall|j: int|
                    0 <= j < i ==> out@[j] == cell_spec(self.buffer@, self.expected@, j),
            decreases n - i,
        {
            let cell = if i >= self.buffer.len() {
                Cell { ch: self.expected[i], style: CellStyle::Uncompleted }
            } else if i >= self.expected.len() {
                Cell { ch: self.buffer[i], style: CellStyle::Error }
            } else if self.buffer[i] == self.expected[i] {
                Cell { ch: self.buffer[i], style: CellStyle::Completed }
            } else if self.buffer[i] == ' ' {
                Cell { ch: self.buffer[i], style: CellStyle::ErrorSpace }
            } else {
                Cell { ch: self.buffer[i], style: CellStyle::Error }
            };
            out.push(cell);
            proof {
                assert(out@.len() == i as int + 1);
                assert(out@[i as int] == cell);
                assert(cell == cell_spec(self.buffer@, self.expected@, i as int));
            }
            i += 1;
        }
        out
    }

    /// Whether the whole target has been typed or over-typed: the trigger
    /// condition for rotating on a space keystroke.
    pub fn done(&self) -> (r: bool)
        ensures
            r == (self.buffer@.len() >= self.expected@.len()),
    {
        self.buffer.len() >= self.expected.len()
    }
}

impl Default for Line {
    /// A fresh randomly generated line, as `Line::new` gives.
    fn default() -> (r: Line)
        ensures
            r.buffer@.len() == 0,
            is_generated_line(r.expected@),
    {
        Line::new()
    }
}

/// The crediting scan never credits more words than the target has spaces,
/// plus the one credit for stepping past its end.
proof fn lemma_scan_le_spaces(buf: Seq<char>, exp: Seq<char>, i: int, correct: bool)
    requires
        0 <= i,
    ensures
        scan_count(buf, exp, i, correct) <= text::spaces_from(exp, i) + 1,
    decreases buf.len() - i,
{
    if i >= buf.len() {
    } else if i >= exp.len() {
    } else {
        let at_boundary = if exp[i] == ' ' {
            true
        } else {
            correct
        };
        let still = if buf[i] != exp[i] {
            false
        } else {
            at_boundary
        };
        lemma_scan_le_spaces(buf, exp, i + 1, still);
    }
}

/// Appending one further correct character never lowers the crediting scan.
proof fn lemma_scan_push(b: Seq<char>, c: char, e: Seq<char>, i: int)
    requires
        0 <= i <= b.len(),
        b.push(c).len() <= e.len(),
        forall|j: int| 0 <= j < b.push(c).len() ==> b.push(c)[j] == e[j],
    ensures
        scan_count(b.push(' '), e, i, true) <= scan_count(b.push(c).push(' '), e, i, true),
    decreases b.len() - i,
{
    let buf1 = b.push(' ');
    let buf2 = b.push(c).push(' ');
    if i == b.len() {
        assert(b.push(c)[i] == c);
        assert(c == e[i]);
        assert(buf1[i] == ' ');
        assert(buf2[i] == c);
        assert(scan_count(buf1, e, i + 1, false) == 0);
        assert(scan_count(buf1, e, i + 1, true) == 0);
    } else {
        assert(buf1[i] == b[i]);
        assert(buf2[i] == b.push(c)[i]);
        assert(b.push(c)[i] == b[i]);
        assert(b[i] == e[i]);
        lemma_scan_push(b, c, e, i + 1);
    }
}

/// Law: typing one character and then pressing backspace restores the typed
/// buffer exactly, for any character.
pub proof fn lemma_add_char_then_backspace(buffer: Seq<char>, ch: char)
    ensures
        buffer.push(ch).drop_last() == buffer,
{
    assert(buffer.push(ch).drop_last() =~= buffer);
}

/// Law: while the typed buffer stays a correct prefix of the target,
/// appending one more correct character never decreases the completed-word
/// count.
pub proof fn lemma_word_count_monotone(buffer: Seq<char>, expected: Seq<char>, ch: char)
    requires
        is_correct_prefix(buffer.push(ch), expected),
    ensures
        word_count_spec(buffer, expected) <= word_count_spec(buffer.push(ch), expected),
{
    assert(expected.len() > 0);
    lemma_scan_push(buffer, ch, expected, 0);
}

/// Law: taking two lines from a quote of at least `2 * LINE_LEN` words, each
/// line consuming `LINE_LEN` words as `from_quote` does, leaves exactly the
/// words after the first `2 * LINE_LEN`, rejoined with single spaces.
pub proof fn lemma_quote_two_lines(s0: Seq<char>, s1: Seq<char>, s2: Seq<char>)
    requires
        split_spec(s0).len() >= 2 * (LINE_LEN as int),
        s1 == quote_rest_spec(s0),
        s2 == quote_rest_spec(s1),
    ensures
        s2 == join_spec(split_spec(s0).skip(2 * (LINE_LEN as int))),
{
    let l = LINE_LEN as int;
    let p0 = split_spec(s0);
    let rest1 = p0.skip(l);
    assert(drop_words(p0, l) == rest1);
    text::lemma_split_pieces_have_no_space(s0);
    assert forall|i: int| 0 <= i < rest1.len() implies text::has_no_space(
        #[trigger] rest1[i],
    ) by {
        assert(rest1[i] == p0[i + l]);
    }
    text::lemma_split_of_join(rest1);
    assert(split_spec(s1) == rest1);
    assert(drop_words(split_spec(s1), l) == rest1.skip(l));
    assert(rest1.skip(l) =~= p0.skip(2 * l));
}

/// Law: the completed-word count never exceeds the number of space-delimited
/// words of the target.
pub proof fn lemma_word_count_bounded(buffer: Seq<char>, expected: Seq<char>)
    ensures
        word_count_spec(buffer, expected) <= num_words_spec(expected),
{
    if expected.len() > 0 {
        lemma_scan_le_spaces(buffer.push(' '), expected, 0, true);
        text::lemma_split_len(expected);
    }
}

} // verus!
