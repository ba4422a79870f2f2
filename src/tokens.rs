use vstd::prelude::*;
use vstd::string::StrSliceExecFns;

verus! {

/// Whether `c` is a Unicode `White_Space` character.
pub open spec fn is_white(c: char) -> bool {
    ('\u{9}' <= c <= '\u{d}') || c == ' ' || c == '\u{85}' || c == '\u{a0}' || c == '\u{1680}'
        || ('\u{2000}' <= c <= '\u{200a}') || c == '\u{2028}' || c == '\u{2029}'
        || c == '\u{202f}' || c == '\u{205f}' || c == '\u{3000}'
}

/// Number of maximal runs of non-whitespace characters in `s`.
pub open spec fn word_count(s: Seq<char>) -> nat
    decreases s.len(),
{
    if s.len() == 0 {
        0
    } else {
        let starts_word = !is_white(s.last()) && (s.len() == 1 || is_white(s[s.len() - 2]));
        word_count(s.drop_last()) + if starts_word { 1nat } else { 0nat }
    }
}

/// The token estimate: the larger of a quarter of the characters and a
/// third of the words, each rounded down.
pub open spec fn token_estimate(s: Seq<char>) -> nat {
    let c = s.len() / 4;
    let w = word_count(s) / 3;
    if c >= w { c } else { w }
}

/// Whether `c` is whitespace, as `char::is_whitespace` decides.
pub fn is_whitespace(c: char) -> (r: bool)
    ensures
        r == is_white(c),
{
    ('\u{9}' <= c && c <= '\u{d}') || c == ' ' || c == '\u{85}' || c == '\u{a0}' || c == '\u{1680}'
        || ('\u{2000}' <= c && c <= '\u{200a}') || c == '\u{2028}' || c == '\u{2029}'
        || c == '\u{202f}' || c == '\u{205f}' || c == '\u{3000}'
}

proof fn lemma_word_count_bound(s: Seq<char>)
    ensures
        word_count(s) <= s.len(),
    decreases s.len(),
{
    if s.len() > 0 {
        lemma_word_count_bound(s.drop_last());
    }
}

/// Approximate token count of `text` (see [`token_estimate`]). Not a real
/// tokenizer: only a heuristic.
pub fn estimate_tokens(text: &str) -> (r: usize)
    ensures
        r == token_estimate(text@),
{
    let total = text.unicode_len();
    let mut words: usize = 0;
    let mut prev_white = true;
    for c in it: text.chars()
        invariant
            it.seq() == text@,
            total == text@.len(),
            words == word_count(text@.subrange(0, it.index() as int)),
            words <= it.index(),
            prev_white == (it.index() == 0 || is_white(text@[it.index() - 1])),
    {
        let ghost k = it.index();
        proof {
            assert(text@.subrange(0, k + 1).drop_last() =~= text@.subrange(0, k));
            lemma_word_count_bound(text@.subrange(0, k));
        }
        let white = is_whitespace(c);
        if !white && prev_white {
            words = words + 1;
        }
        prev_white = white;
    }
    assert(text@.subrange(0, text@.len() as int) =~= text@);
    let c4 = total / 4;
    let w3 = words / 3;
    if c4 >= w3 { c4 } else { w3 }
}

/// The estimate never decreases as text is appended.
pub proof fn lemma_estimate_monotone(s: Seq<char>, t: Seq<char>)
    ensures
        token_estimate(s) <= token_estimate(s + t),
    decreases t.len(),
{
    if t.len() > 0 {
        let t0 = t.drop_last();
        lemma_estimate_monotone(s, t0);
        assert((s + t).drop_last() =~= s + t0);
        assert(word_count(s + t0) <= word_count(s + t));
        assert((s + t0).len() / 4 <= (s + t).len() / 4) by (nonlinear_arith)
            requires (s + t0).len() <= (s + t).len();
        assert(word_count(s + t0) / 3 <= word_count(s + t) / 3) by (nonlinear_arith)
            requires word_count(s + t0) <= word_count(s + t);
    }
}

} // verus!
