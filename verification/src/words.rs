//! The fixed word corpus and the random drawing of target lines from it.
use vstd::prelude::*;
use vstd::string::*;
use crate::text::{join, join_spec};

verus! {

/// How many words make up one generated target line.
pub const LINE_LEN: usize = 10;

/// The fixed corpus that generated lines draw their words from.
pub open spec fn word_list_spec() -> Seq<Seq<char>> {
    seq![
        "the"@, "be"@, "of"@, "and"@, "a"@, "to"@, "in"@, "he"@,
        "have"@, "it"@, "that"@, "for"@, "they"@, "with"@, "as"@, "not"@,
        "on"@, "she"@, "at"@, "by"@, "this"@, "we"@, "you"@, "do"@,
        "but"@, "from"@, "or"@, "which"@, "one"@, "would"@, "all"@, "will"@,
        "there"@, "say"@, "who"@, "make"@, "when"@, "can"@, "more"@, "if"@,
    ]
}

/// A generated target line: `LINE_LEN` corpus words joined with single spaces.
pub open spec fn is_generated_line(s: Seq<char>) -> bool {
    exists|ws: Seq<Seq<char>>|
        ws.len() == LINE_LEN && (forall|i: int|
            0 <= i < ws.len() ==> word_list_spec().contains(#[trigger] ws[i])) && s == join_spec(
            ws,
        )
}

/// Relies on rand::random: draws a value of the requested type; nothing is
/// promised of which value comes back.
pub assume_specification<T>[ rand::random::<T> ]() -> (r: T)
    where
        rand::distributions::Standard: rand::distributions::Distribution<T>,
;

/// The characters of `s`, in order.
fn chars_of(s: &str) -> (r: Vec<char>)
    ensures
        r@ == s@,
{
    let n = s.unicode_len();
    let mut out: Vec<char> = Vec::new();
    let mut i: usize = 0;
    proof {
        assert(out@ =~= s@.take(0));
    }
    while i < n
        invariant
            i <= n,
            n == s@.len(),
            out@ == s@.take(i as int),
        decreases n - i,
    {
        let c = s.get_char(i);
        out.push(c);
        proof {
            assert(out@ =~= s@.take(i as int + 1));
        }
        i += 1;
    }
    proof {
        assert(s@.take(n as int) =~= s@);
    }
    out
}

/// The characters of `src`, copied into a fresh vector.
pub(crate) fn copy_chars(src: &Vec<char>) -> (r: Vec<char>)
    ensures
        r@ == src@,
{
    let mut out: Vec<char> = Vec::new();
    let mut i: usize = 0;
    proof {
        assert(out@ =~= src@.take(0));
    }
    while i < src.len()
        invariant
            i <= src@.len(),
            out@ == src@.take(i as int),
        decreases src@.len() - i,
    {
        let c = src[i];
        out.push(c);
        proof {
            assert(out@ =~= src@.take(i as int + 1));
        }
        i += 1;
    }
    proof {
        assert(src@.take(src@.len() as int) =~= src@);
    }
    out
}

/// Append the characters of one corpus word to the list under construction.
fn push_word(ws: &mut Vec<Vec<char>>, s: &str)
    ensures
        final(ws).deep_view() == old(ws).deep_view().push(s@),
{
    let w = chars_of(s);
    ws.push(w);
    proof {
        assert(ws.deep_view() =~~= old(ws).deep_view().push(s@));
    }
}

/// The fixed corpus as executable data, in the order of `word_list_spec`.
fn word_list() -> (r: Vec<Vec<char>>)
    ensures
        r.deep_view() == word_list_spec(),
{
    let mut ws: Vec<Vec<char>> = Vec::new();
    push_word(&mut ws, "the");
    push_word(&mut ws, "be");
    push_word(&mut ws, "of");
    push_word(&mut ws, "and");
    push_word(&mut ws, "a");
    push_word(&mut ws, "to");
    push_word(&mut ws, "in");
    push_word(&mut ws, "he");
    push_word(&mut ws, "have");
    push_word(&mut ws, "it");
    push_word(&mut ws, "that");
    push_word(&mut ws, "for");
    push_word(&mut ws, "they");
    push_word(&mut ws, "with");
    push_word(&mut ws, "as");
    push_word(&mut ws, "not");
    push_word(&mut ws, "on");
    push_word(&mut ws, "she");
    push_word(&mut ws, "at");
    push_word(&mut ws, "by");
    push_word(&mut ws, "this");
    push_word(&mut ws, "we");
    push_word(&mut ws, "you");
    push_word(&mut ws, "do");
    push_word(&mut ws, "but");
    push_word(&mut ws, "from");
    push_word(&mut ws, "or");
    push_word(&mut ws, "which");
    push_word(&mut ws, "one");
    push_word(&mut ws, "would");
    push_word(&mut ws, "all");
    push_word(&mut ws, "will");
    push_word(&mut ws, "there");
    push_word(&mut ws, "say");
    push_word(&mut ws, "who");
    push_word(&mut ws, "make");
    push_word(&mut ws, "when");
    push_word(&mut ws, "can");
    push_word(&mut ws, "more");
    push_word(&mut ws, "if");
    proof {
        assert(ws.deep_view() =~~= word_list_spec());
    }
    ws
}

/// One word drawn from the corpus by a uniform random index.
pub fn next_word() -> (r: Vec<char>)
    ensures
        word_list_spec().contains(r@),
{
    let ws = word_list();
    let n: usize = rand::random();
    proof {
        assert(ws.deep_view().len() == ws@.len());
    }
    let i = n % ws.len();
    let r = copy_chars(&ws[i]);
    proof {
        assert(r@ =~= ws.deep_view()[i as int]);
        assert(word_list_spec().contains(r@)) by {
            assert(word_list_spec()[i as int] == r@);
        }
    }
    r
}

/// A fresh target line: `LINE_LEN` drawn words joined with single spaces.
pub fn next_line() -> (r: Vec<char>)
    ensures
        is_generated_line(r@),
        r@.len() > 0,
{
    let mut ws: Vec<Vec<char>> = Vec::new();
    let mut k: usize = 0;
    while k < LINE_LEN
        invariant
            k <= LINE_LEN,
            ws.deep_view().len() == k as int,
            forall|i: int| 0 <= i < k ==> word_list_spec().contains(#[trigger] ws.deep_view()[i]),
        decreases LINE_LEN - k,
    {
        let w = next_word();
        let ghost dv = ws.deep_view();
        let ghost wv = w@;
        ws.push(w);
        proof {
            assert(ws.deep_view() =~~= dv.push(wv));
        }
        k += 1;
    }
    let r = join(&ws);
    proof {
        let wsv = ws.deep_view();
        assert(is_generated_line(r@)) by {
            assert(wsv.len() == LINE_LEN);
            assert(r@ == join_spec(wsv));
        }
        crate::text::lemma_join_min_len(wsv);
    }
    r
}

} // verus!
