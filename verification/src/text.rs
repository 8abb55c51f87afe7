//! Cutting text into space-separated words and joining words back together
//! with single spaces.
use vstd::prelude::*;

verus! {

/// Index of the first space character of `s`, or `s.len()` when `s` has none.
pub open spec fn first_space(s: Seq<char>) -> int
    decreases s.len(),
{
    if s.len() == 0 {
        0
    } else if s[0] == ' ' {
        0
    } else {
        1 + first_space(s.skip(1))
    }
}

pub proof fn lemma_first_space(s: Seq<char>)
    ensures
        0 <= first_space(s) <= s.len(),
        first_space(s) < s.len() ==> s[first_space(s)] == ' ',
        forall|i: int| 0 <= i < first_space(s) ==> s[i] != ' ',
    decreases s.len(),
{
    if s.len() == 0 {
    } else if s[0] == ' ' {
    } else {
        lemma_first_space(s.skip(1));
        assert forall|i: int| 0 <= i < first_space(s) implies s[i] != ' ' by {
            if i > 0 {
                assert(s.skip(1)[i - 1] == s[i]);
            }
        }
        if first_space(s) < s.len() {
            assert(s.skip(1)[first_space(s.skip(1))] == s[first_space(s)]);
        }
    }
}

/// The pieces of `s` cut at every space: consecutive spaces give empty
/// words, and the empty sequence is a single empty word.
pub open spec fn split_spec(s: Seq<char>) -> Seq<Seq<char>>
    decreases s.len(),
{
    let cut = first_space(s);
    if 0 <= cut < s.len() {
        seq![s.take(cut)] + split_spec(s.skip(cut + 1))
    } else {
        seq![s]
    }
}

/// Words joined with a single space between each adjacent pair.
pub open spec fn join_spec(ws: Seq<Seq<char>>) -> Seq<char>
    decreases ws.len(),
{
    if ws.len() == 0 {
        Seq::empty()
    } else if ws.len() == 1 {
        ws[0]
    } else {
        ws[0] + seq![' '] + join_spec(ws.skip(1))
    }
}

/// Whether no character of `w` is a space.
pub open spec fn has_no_space(w: Seq<char>) -> bool {
    forall|i: int| 0 <= i < w.len() ==> w[i] != ' '
}

/// The first `n` of `ws`, or all of them when fewer remain.
pub open spec fn take_words(ws: Seq<Seq<char>>, n: int) -> Seq<Seq<char>> {
    if n <= ws.len() {
        ws.take(n)
    } else {
        ws
    }
}

/// What is left of `ws` after the first `n`, empty when fewer remain.
pub open spec fn drop_words(ws: Seq<Seq<char>>, n: int) -> Seq<Seq<char>> {
    if n <= ws.len() {
        ws.skip(n)
    } else {
        Seq::empty()
    }
}

/// Number of space characters of `s` at or after position `i`.
pub open spec fn spaces_from(s: Seq<char>, i: int) -> nat
    decreases s.len() - i,
{
    if 0 <= i < s.len() {
        (if s[i] == ' ' {
            1 as nat
        } else {
            0 as nat
        }) + spaces_from(s, i + 1)
    } else {
        0
    }
}

pub proof fn lemma_spaces_from_bound(s: Seq<char>, i: int)
    requires
        0 <= i,
    ensures
        spaces_from(s, i) <= (if i <= s.len() {
            s.len() - i
        } else {
            0
        }),
    decreases s.len() - i,
{
    if 0 <= i < s.len() {
        lemma_spaces_from_bound(s, i + 1);
    }
}

pub proof fn lemma_spaces_from_same(s: Seq<char>, i: int, j: int)
    requires
        0 <= i <= j <= s.len(),
        forall|k: int| i <= k < j ==> s[k] != ' ',
    ensures
        spaces_from(s, i) == spaces_from(s, j),
    decreases j - i,
{
    if i < j {
        lemma_spaces_from_same(s, i + 1, j);
    }
}

pub proof fn lemma_spaces_from_skip(s: Seq<char>, m: int, i: int)
    requires
        0 <= m <= s.len(),
        0 <= i,
    ensures
        spaces_from(s.skip(m), i) == spaces_from(s, m + i),
    decreases s.len() - m - i,
{
    if m + i < s.len() {
        assert(s.skip(m)[i] == s[m + i]);
        lemma_spaces_from_skip(s, m, i + 1);
    }
}

/// How many words `split_spec` yields: one more than the spaces of `s`.
pub proof fn lemma_split_len(s: Seq<char>)
    ensures
        split_spec(s).len() == spaces_from(s, 0) + 1,
    decreases s.len(),
{
    lemma_first_space(s);
    let cut = first_space(s);
    if 0 <= cut < s.len() {
        lemma_split_len(s.skip(cut + 1));
        lemma_spaces_from_same(s, 0, cut);
        lemma_spaces_from_skip(s, cut + 1, 0);
    } else {
        lemma_spaces_from_same(s, 0, s.len() as int);
    }
}

pub proof fn lemma_first_space_of_word_then_rest(w: Seq<char>, rest: Seq<char>)
    requires
        has_no_space(w),
    ensures
        first_space(w + seq![' '] + rest) == w.len(),
    decreases w.len(),
{
    let s = w + seq![' '] + rest;
    if w.len() == 0 {
        assert(s[0] == ' ');
    } else {
        assert(s[0] == w[0]);
        assert(has_no_space(w.skip(1))) by {
            assert forall|i: int| 0 <= i < w.skip(1).len() implies w.skip(1)[i] != ' ' by {
                assert(w.skip(1)[i] == w[i + 1]);
            }
        }
        lemma_first_space_of_word_then_rest(w.skip(1), rest);
        assert(s.skip(1) =~= w.skip(1) + seq![' '] + rest);
    }
}

pub proof fn lemma_split_of_word(w: Seq<char>)
    requires
        has_no_space(w),
    ensures
        split_spec(w) == seq![w],
{
    lemma_first_space(w);
}

pub proof fn lemma_split_of_word_then_rest(w: Seq<char>, rest: Seq<char>)
    requires
        has_no_space(w),
    ensures
        split_spec(w + seq![' '] + rest) == seq![w] + split_spec(rest),
{
    let s = w + seq![' '] + rest;
    lemma_first_space_of_word_then_rest(w, rest);
    assert(s.take(w.len() as int) =~= w);
    assert(s.skip(w.len() as int + 1) =~= rest);
}

pub proof fn lemma_join_push(ws: Seq<Seq<char>>, w: Seq<char>)
    ensures
        join_spec(ws.push(w)) == (if ws.len() == 0 {
            w
        } else {
            join_spec(ws) + seq![' '] + w
        }),
    decreases ws.len(),
{
    let p = ws.push(w);
    if ws.len() == 0 {
        assert(p[0] == w);
        assert(join_spec(p) == w);
    } else if ws.len() == 1 {
        assert(p.skip(1) =~= seq![w]);
        assert(p[0] == ws[0]);
        assert(join_spec(p.skip(1)) == w);
        assert(join_spec(p) =~= join_spec(ws) + seq![' '] + w);
    } else {
        assert(p.skip(1) =~= ws.skip(1).push(w));
        lemma_join_push(ws.skip(1), w);
        assert(p[0] == ws[0]);
        assert(ws[0] + seq![' '] + (join_spec(ws.skip(1)) + seq![' '] + w) =~= (ws[0] + seq![' ']
            + join_spec(ws.skip(1))) + seq![' '] + w);
        assert(join_spec(p) =~= join_spec(ws) + seq![' '] + w);
    }
}

/// Joined words are at least as long as the separators between them.
pub proof fn lemma_join_min_len(ws: Seq<Seq<char>>)
    ensures
        join_spec(ws).len() >= ws.len() - 1,
    decreases ws.len(),
{
    if ws.len() > 1 {
        lemma_join_min_len(ws.skip(1));
    }
}

pub proof fn lemma_split_pieces_have_no_space(s: Seq<char>)
    ensures
        forall|i: int| 0 <= i < split_spec(s).len() ==> has_no_space(#[trigger] split_spec(s)[i]),
    decreases s.len(),
{
    lemma_first_space(s);
    let cut = first_space(s);
    if 0 <= cut < s.len() {
        lemma_split_pieces_have_no_space(s.skip(cut + 1));
        assert(has_no_space(s.take(cut))) by {
            assert forall|i: int| 0 <= i < s.take(cut).len() implies s.take(cut)[i] != ' ' by {
                assert(s.take(cut)[i] == s[i]);
            }
        }
        assert forall|i: int|
            0 <= i < split_spec(s).len() implies has_no_space(#[trigger] split_spec(s)[i]) by {
            if i == 0 {
                assert(split_spec(s)[0] == s.take(cut));
            } else {
                assert(split_spec(s)[i] == split_spec(s.skip(cut + 1))[i - 1]);
            }
        }
    }
}

/// Law: joining words that contain no spaces and cutting the result at every
/// space gives the words back exactly.
pub proof fn lemma_split_of_join(ws: Seq<Seq<char>>)
    requires
        ws.len() > 0,
        forall|i: int| 0 <= i < ws.len() ==> has_no_space(#[trigger] ws[i]),
    ensures
        split_spec(join_spec(ws)) == ws,
    decreases ws.len(),
{
    if ws.len() == 1 {
        lemma_split_of_word(ws[0]);
        assert(seq![ws[0]] =~= ws);
    } else {
        assert forall|i: int|
            0 <= i < ws.skip(1).len() implies has_no_space(#[trigger] ws.skip(1)[i]) by {
            assert(ws.skip(1)[i] == ws[i + 1]);
        }
        lemma_split_of_word_then_rest(ws[0], join_spec(ws.skip(1)));
        lemma_split_of_join(ws.skip(1));
        assert(seq![ws[0]] + ws.skip(1) =~= ws);
    }
}

/// Join `words` with single spaces: the executable form of `join_spec`.
pub fn join(words: &Vec<Vec<char>>) -> (r: Vec<char>)
    ensures
        r@ == join_spec(words.deep_view()),
{
    let ghost all = words.deep_view();
    let mut out: Vec<char> = Vec::new();
    let mut k: usize = 0;
    proof {
        assert(all.take(0) =~= Seq::<Seq<char>>::empty());
    }
    while k < words.len()
        invariant
            k <= words@.len(),
            all == words.deep_view(),
            all.len() == words@.len(),
            out@ == join_spec(all.take(k as int)),
        decreases words@.len() - k,
    {
        if k > 0 {
            out.push(' ');
        }
        let ghost mid = out@;
        let w = &words[k];
        proof {
            assert(w@ == all[k as int]);
        }
        let mut j: usize = 0;
        proof {
            assert(out@ =~= mid + w@.take(0));
        }
        while j < w.len()
            invariant
                j <= w@.len(),
                out@ == mid + w@.take(j as int),
            decreases w@.len() - j,
        {
            out.push(w[j]);
            proof {
                assert(out@ =~= mid + w@.take(j as int + 1));
            }
            j += 1;
        }
        proof {
            assert(out@ =~= mid + w@);
            lemma_join_push(all.take(k as int), all[k as int]);
            assert(all.take(k as int).push(all[k as int]) =~= all.take(k as int + 1));
            if k == 0 {
                assert(out@ =~= w@);
            } else {
                assert(mid =~= join_spec(all.take(k as int)) + seq![' ']);
                assert(out@ =~= join_spec(all.take(k as int)) + seq![' '] + w@);
            }
        }
        k += 1;
    }
    proof {
        assert(all.take(words@.len() as int) =~= all);
    }
    out
}

/// Cut `s` at every space: the executable form of `split_spec`.
pub fn split_words(s: &Vec<char>) -> (r: Vec<Vec<char>>)
    ensures
        r.deep_view() == split_spec(s@),
{
    let mut pieces: Vec<Vec<char>> = Vec::new();
    let mut cur: Vec<char> = Vec::new();
    let mut i: usize = 0;
    proof {
        assert(cur@ + s@.skip(0) =~= s@);
        assert(pieces.deep_view() =~= Seq::<Seq<char>>::empty());
        assert(Seq::<Seq<char>>::empty() + split_spec(s@) =~= split_spec(s@));
    }
    while i < s.len()
        invariant
            i <= s@.len(),
            has_no_space(cur@),
            split_spec(s@) == pieces.deep_view() + split_spec(cur@ + s@.skip(i as int)),
        decreases s@.len() - i,
    {
        let c = s[i];
        let ghost cv = cur@;
        let ghost pv = pieces.deep_view();
        if c == ' ' {
            proof {
                lemma_split_of_word_then_rest(cv, s@.skip(i as int + 1));
                assert(cv + s@.skip(i as int) =~= cv + seq![' '] + s@.skip(i as int + 1));
            }
            pieces.push(cur);
            cur = Vec::new();
            proof {
                assert(pieces.deep_view() =~~= pv.push(cv));
                assert(pv.push(cv) + split_spec(s@.skip(i as int + 1)) =~= pv + (seq![cv]
                    + split_spec(s@.skip(i as int + 1))));
                assert(cur@ + s@.skip(i as int + 1) =~= s@.skip(i as int + 1));
            }
        } else {
            cur.push(c);
            proof {
                assert(cur@ + s@.skip(i as int + 1) =~= cv + s@.skip(i as int));
                assert forall|j: int| 0 <= j < cur@.len() implies cur@[j] != ' ' by {
                    if j < cv.len() {
                        assert(cur@[j] == cv[j]);
                    }
                }
            }
        }
        i += 1;
    }
    proof {
        assert(cur@ + s@.skip(i as int) =~= cur@);
        lemma_split_of_word(cur@);
    }
    let ghost pv = pieces.deep_view();
    let ghost cv = cur@;
    pieces.push(cur);
    proof {
        assert(pieces.deep_view() =~~= pv.push(cv));
        assert(pv.push(cv) =~= pv + seq![cv]);
    }
    pieces
}

} // verus!
