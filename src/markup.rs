//! Markup stripping: tags removed, whitespace collapsed to single spaces.
use vstd::prelude::*;
use vstd::string::StringExecFns;
use crate::text::{
    all_nonempty, chars_of, is_ws, is_ws_char, join_with, lemma_join_empty, lemma_join_push,
    lemma_word_state_nonempty, lemma_word_state_step, push_char, word_state, words,
};

verus! {

/// What a left-to-right scan keeps of `s`, and whether it ends inside a tag.
/// `<` opens a tag and `>` closes one; neither is kept, nor anything inside.
pub open spec fn tag_state(s: Seq<char>) -> (Seq<char>, bool)
    decreases s.len(),
{
    if s.len() == 0 {
        (seq![], false)
    } else {
        let (kept, in_tag) = tag_state(s.drop_last());
        let c = s.last();
        if c == '<' {
            (kept, true)
        } else if c == '>' {
            (kept, false)
        } else if in_tag {
            (kept, true)
        } else {
            (kept.push(c), false)
        }
    }
}

/// The characters of `s` that lie outside tags.
pub open spec fn strip_tags(s: Seq<char>) -> Seq<char> {
    tag_state(s).0
}

/// Plain text of a markup fragment: the words outside tags, one space apart.
pub open spec fn strip_markup(s: Seq<char>) -> Seq<char> {
    join_with(words(strip_tags(s)), seq![' '])
}

proof fn lemma_tag_state_step(s: Seq<char>, c: char)
    ensures
        tag_state(s.push(c)) == ({
            let (kept, in_tag) = tag_state(s);
            if c == '<' {
                (kept, true)
            } else if c == '>' {
                (kept, false)
            } else if in_tag {
                (kept, true)
            } else {
                (kept.push(c), false)
            }
        }),
{
    assert(s.push(c).drop_last() =~= s);
}

/// No character of `w` is whitespace or a tag bracket.
pub open spec fn plain_word(w: Seq<char>) -> bool {
    forall|k: int| 0 <= k < w.len() ==> !is_ws(#[trigger] w[k]) && w[k] != '<' && w[k] != '>'
}

pub open spec fn no_brackets(s: Seq<char>) -> bool {
    forall|k: int| 0 <= k < s.len() ==> #[trigger] s[k] != '<' && s[k] != '>'
}

proof fn lemma_tag_state_plain(t: Seq<char>)
    requires
        no_brackets(t),
    ensures
        tag_state(t) == (t, false),
    decreases t.len(),
{
    if t.len() > 0 {
        assert(no_brackets(t.drop_last()));
        lemma_tag_state_plain(t.drop_last());
        assert(t.drop_last().push(t.last()) =~= t);
    }
}

proof fn lemma_strip_tags_no_brackets(s: Seq<char>)
    ensures
        no_brackets(strip_tags(s)),
    decreases s.len(),
{
    if s.len() > 0 {
        lemma_strip_tags_no_brackets(s.drop_last());
        let kept = tag_state(s.drop_last()).0;
        assert(no_brackets(kept));
        if s.last() != '<' && s.last() != '>' {
            assert(no_brackets(kept.push(s.last())));
        }
    }
}

proof fn lemma_word_state_plain(s: Seq<char>)
    requires
        no_brackets(s),
    ensures
        forall|j: int| 0 <= j < word_state(s).0.len() ==> plain_word(#[trigger] word_state(s).0[j]),
        plain_word(word_state(s).1),
    decreases s.len(),
{
    if s.len() > 0 {
        assert(no_brackets(s.drop_last()));
        lemma_word_state_plain(s.drop_last());
        let (ws, cur) = word_state(s.drop_last());
        let c = s.last();
        if !is_ws(c) {
            assert(plain_word(cur.push(c)));
        } else if cur.len() > 0 {
            assert forall|j: int| 0 <= j < ws.push(cur).len() implies plain_word(
                #[trigger] ws.push(cur)[j],
            ) by {
                if j < ws.len() {
                    assert(ws.push(cur)[j] == ws[j]);
                }
            }
        }
        assert(plain_word(seq![]));
    }
}

proof fn lemma_word_state_append_plain(p: Seq<char>, w: Seq<char>)
    requires
        plain_word(w),
    ensures
        word_state(p + w) == (word_state(p).0, word_state(p).1 + w),
    decreases w.len(),
{
    if w.len() == 0 {
        assert(p + w =~= p);
        assert(word_state(p).1 + w =~= word_state(p).1);
    } else {
        let w0 = w.drop_last();
        assert(plain_word(w0));
        lemma_word_state_append_plain(p, w0);
        assert((p + w).drop_last() =~= p + w0);
        assert((p + w).last() == w.last());
        assert(!is_ws(w[w.len() - 1]));
        assert((word_state(p).1 + w0).push(w.last()) =~= word_state(p).1 + w);
    }
}

proof fn lemma_words_of_join(ws: Seq<Seq<char>>)
    requires
        ws.len() > 0,
        all_nonempty(ws),
        forall|j: int| 0 <= j < ws.len() ==> plain_word(#[trigger] ws[j]),
    ensures
        word_state(join_with(ws, seq![' '])) == (ws.drop_last(), ws.last()),
    decreases ws.len(),
{
    let w = ws.last();
    assert(plain_word(ws[ws.len() - 1]));
    if ws.len() == 1 {
        lemma_word_state_append_plain(seq![], w);
        assert(seq![] + w =~= w);
        assert(ws.drop_last() =~= seq![]);
    } else {
        let rest = ws.drop_last();
        assert forall|j: int| 0 <= j < rest.len() implies plain_word(#[trigger] rest[j]) && rest[j].len() > 0 by {
            assert(rest[j] == ws[j]);
        }
        lemma_words_of_join(rest);
        let t = join_with(rest, seq![' ']);
        assert(rest.last() == ws[ws.len() - 2]);
        assert(rest.last().len() > 0);
        lemma_word_state_step(t, ' ');
        assert(rest.drop_last().push(rest.last()) =~= rest);
        assert(t + seq![' '] =~= t.push(' '));
        lemma_word_state_append_plain(t.push(' '), w);
        assert(seq![] + w =~= w);
    }
}

/// The words of a join with single spaces are the parts joined.
proof fn lemma_words_join(ws: Seq<Seq<char>>)
    requires
        all_nonempty(ws),
        forall|j: int| 0 <= j < ws.len() ==> plain_word(#[trigger] ws[j]),
    ensures
        words(join_with(ws, seq![' '])) == ws,
{
    if ws.len() > 0 {
        lemma_words_of_join(ws);
        assert(ws.last().len() > 0) by {
            assert(ws[ws.len() - 1].len() > 0);
        }
        assert(ws.drop_last().push(ws.last()) =~= ws);
    } else {
        assert(word_state(seq![]) == (Seq::<Seq<char>>::empty(), Seq::<char>::empty()));
    }
}

/// Stripping is idempotent: plain text produced by stripping comes back unchanged.
pub proof fn lemma_strip_idempotent(s: Seq<char>)
    ensures
        strip_markup(strip_markup(s)) == strip_markup(s),
{
    let x = strip_tags(s);
    lemma_strip_tags_no_brackets(s);
    lemma_word_state_plain(x);
    lemma_word_state_nonempty(x);
    let ws = words(x);
    assert forall|j: int| 0 <= j < ws.len() implies plain_word(#[trigger] ws[j]) && ws[j].len() > 0 by {
        if j < word_state(x).0.len() {
            assert(ws[j] == word_state(x).0[j]);
        }
    }
    let t = join_with(ws, seq![' ']);
    lemma_words_join(ws);
    lemma_join_plain(ws);
    lemma_tag_state_plain(t);
}

/// A join with single spaces of plain words holds no tag bracket.
proof fn lemma_join_plain(ws: Seq<Seq<char>>)
    requires
        forall|j: int| 0 <= j < ws.len() ==> plain_word(#[trigger] ws[j]),
    ensures
        no_brackets(join_with(ws, seq![' '])),
    decreases ws.len(),
{
    if ws.len() == 1 {
        assert(plain_word(ws[0]));
    } else if ws.len() > 1 {
        let rest = ws.drop_last();
        assert forall|j: int| 0 <= j < rest.len() implies plain_word(#[trigger] rest[j]) by {
            assert(rest[j] == ws[j]);
        }
        lemma_join_plain(rest);
        assert(plain_word(ws[ws.len() - 1]));
        let t = join_with(rest, seq![' ']) + seq![' '] + ws.last();
        assert forall|k: int| 0 <= k < t.len() implies #[trigger] t[k] != '<' && t[k] != '>' by {
            let a = join_with(rest, seq![' ']);
            if k < a.len() {
                assert(t[k] == a[k]);
            } else if k > a.len() {
                assert(t[k] == ws.last()[k - a.len() - 1]);
            }
        }
    }
}

/// The plain text of the characters `v[lo..hi]`.
pub fn strip_range(v: &Vec<char>, lo: usize, hi: usize) -> (r: String)
    requires
        lo <= hi <= v.len(),
    ensures
        r@ == strip_markup(v@.subrange(lo as int, hi as int)),
{
    let mut out = String::new();
    let mut cur = String::new();
    let mut in_tag = false;
    let ghost mut kept: Seq<char> = seq![];
    let mut i = lo;
    proof {
        assert(v@.subrange(lo as int, lo as int) =~= seq![]);
    }
    while i < hi
        invariant
            lo <= i <= hi <= v.len(),
            tag_state(v@.subrange(lo as int, i as int)) == (kept, in_tag),
            word_state(kept).1 == cur@,
            out@ == join_with(word_state(kept).0, seq![' ']),
        decreases hi - i,
    {
        let c = v[i];
        proof {
            assert(v@.subrange(lo as int, i + 1) =~= v@.subrange(lo as int, i as int).push(c));
            lemma_tag_state_step(v@.subrange(lo as int, i as int), c);
        }
        if c == '<' {
            in_tag = true;
        } else if c == '>' {
            in_tag = false;
        } else if !in_tag {
            proof {
                lemma_word_state_step(kept, c);
                lemma_word_state_nonempty(kept);
                lemma_join_empty(word_state(kept).0, seq![' ']);
                lemma_join_push(word_state(kept).0, seq![' '], cur@);
                kept = kept.push(c);
            }
            if is_ws_char(c) {
                if !cur.as_str().is_empty() {
                    if !out.as_str().is_empty() {
                        push_char(&mut out, ' ');
                    }
                    out.append(cur.as_str());
                    cur = String::new();
                }
            } else {
                push_char(&mut cur, c);
            }
        }
        i = i + 1;
    }
    proof {
        lemma_word_state_nonempty(kept);
        lemma_join_empty(word_state(kept).0, seq![' ']);
        lemma_join_push(word_state(kept).0, seq![' '], cur@);
    }
    if !cur.as_str().is_empty() {
        if !out.as_str().is_empty() {
            push_char(&mut out, ' ');
        }
        out.append(cur.as_str());
    }
    out
}

/// Removes every tag from a markup fragment and collapses whitespace: the
/// words that remain are joined by single spaces, with none at either end.
pub fn strip_html_tags(html: &str) -> (r: String)
    ensures
        r@ == strip_markup(html@),
{
    let v = chars_of(html);
    proof {
        assert(v@.subrange(0, v@.len() as int) =~= html@);
    }
    strip_range(&v, 0, v.len())
}

} // verus!
