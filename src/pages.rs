//! Page estimates from word counts.
use vstd::prelude::*;
use crate::text::{chars_of, is_ws_char, lemma_word_state_step, word_state, words};

verus! {

/// Words that make up one page.
pub const WORDS_PER_PAGE: usize = 500;

/// Whole pages of words, and never fewer than one.
pub open spec fn page_estimate(s: Seq<char>) -> nat {
    let p = words(s).len() / (WORDS_PER_PAGE as nat);
    if p >= 1 {
        p
    } else {
        1
    }
}

/// The number of whitespace-delimited words of `text`.
pub fn word_count(text: &str) -> (n: usize)
    ensures
        n == words(text@).len(),
{
    let v = chars_of(text);
    let mut count: usize = 0;
    let mut in_word = false;
    let mut i: usize = 0;
    while i < v.len()
        invariant
            i <= v.len(),
            count + (if in_word { 1int } else { 0int }) <= i,
            count == word_state(v@.take(i as int)).0.len(),
            in_word == (word_state(v@.take(i as int)).1.len() > 0),
        decreases v.len() - i,
    {
        let c = v[i];
        proof {
            assert(v@.take(i + 1) =~= v@.take(i as int).push(c));
            lemma_word_state_step(v@.take(i as int), c);
        }
        if is_ws_char(c) {
            if in_word {
                count = count + 1;
            }
            in_word = false;
        } else {
            in_word = true;
        }
        i = i + 1;
    }
    assert(v@.take(v.len() as int) =~= text@);
    if in_word {
        count + 1
    } else {
        count
    }
}

/// The page estimate of `content`: its word count divided by
/// `WORDS_PER_PAGE`, rounded down, and at least one.
pub fn estimate_pages(content: &str) -> (n: usize)
    ensures
        n == page_estimate(content@),
{
    let p = word_count(content) / WORDS_PER_PAGE;
    if p >= 1 {
        p
    } else {
        1
    }
}

} // verus!
