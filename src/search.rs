//! Case-insensitive search over the lines of a document's content.
use vstd::prelude::*;
use crate::formats::append_range;
use crate::text::chars_of;
use crate::title::{find_chars, find_from};

verus! {

/// The lower-case form of `s`, as Unicode defines it.
pub uninterp spec fn lower_of(s: Seq<char>) -> Seq<char>;

/// Relies on `str::to_lowercase`: the Unicode lower-case mapping, a function
/// of the characters alone.
#[verifier::external_body]
fn lowercase(s: &str) -> (r: String)
    ensures
        r@ == lower_of(s@),
{
    s.to_lowercase()
}

/// `needle` occurs somewhere in `hay`.
pub open spec fn contains_seq(hay: Seq<char>, needle: Seq<char>) -> bool {
    find_from(hay, needle, 0) is Some
}

/// A line without the `\r` that ended it, if any.
pub open spec fn strip_cr(l: Seq<char>) -> Seq<char> {
    if l.len() > 0 && l.last() == '\r' {
        l.drop_last()
    } else {
        l
    }
}

/// The state of a left-to-right split into lines: the lines ended by `\n`
/// so far and the line being read.
pub open spec fn text_line_state(s: Seq<char>) -> (Seq<Seq<char>>, Seq<char>)
    decreases s.len(),
{
    if s.len() == 0 {
        (seq![], seq![])
    } else {
        let (ls, cur) = text_line_state(s.drop_last());
        if s.last() == '\n' {
            (ls.push(strip_cr(cur)), seq![])
        } else {
            (ls, cur.push(s.last()))
        }
    }
}

/// The lines of `s`: split at each `\n`, a `\r` before it dropped, and a
/// last line only if it is not empty.
pub open spec fn text_lines(s: Seq<char>) -> Seq<Seq<char>> {
    let (ls, cur) = text_line_state(s);
    if cur.len() > 0 {
        ls.push(cur)
    } else {
        ls
    }
}

pub open spec fn lines_view(v: Seq<String>) -> Seq<Seq<char>> {
    v.map_values(|s: String| s@)
}

/// The lines of `text`.
pub fn split_lines(text: &str) -> (r: Vec<String>)
    ensures
        lines_view(r@) == text_lines(text@),
{
    let v = chars_of(text);
    let mut r: Vec<String> = Vec::new();
    let mut start: usize = 0;
    let mut i: usize = 0;
    while i < v.len()
        invariant
            start <= i <= v.len(),
            text_line_state(v@.take(i as int)) == (lines_view(r@), v@.subrange(start as int, i as int)),
        decreases v.len() - i,
    {
        let c = v[i];
        proof {
            assert(v@.take(i + 1).drop_last() =~= v@.take(i as int));
            assert(v@.take(i + 1).last() == c);
        }
        if c == '\n' {
            let mut end = i;
            if end > start && v[end - 1] == '\r' {
                end = end - 1;
            }
            let mut line = String::new();
            append_range(&mut line, &v, start, end);
            proof {
                let cur = v@.subrange(start as int, i as int);
                if end < i {
                    assert(cur.drop_last() =~= v@.subrange(start as int, end as int));
                } else {
                    assert(cur =~= v@.subrange(start as int, end as int));
                }
                assert(line@ =~= strip_cr(cur));
                assert(v@.subrange(i + 1, i + 1) =~= Seq::<char>::empty());
            }
            let ghost before = r@;
            r.push(line);
            assert(lines_view(r@) =~= lines_view(before).push(line@));
            start = i + 1;
        } else {
            assert(v@.subrange(start as int, i + 1) =~= v@.subrange(start as int, i as int).push(c));
        }
        i = i + 1;
    }
    assert(v@.take(v.len() as int) =~= text@);
    if start < v.len() {
        let mut line = String::new();
        append_range(&mut line, &v, start, v.len());
        assert(line@ =~= v@.subrange(start as int, v.len() as int));
        let ghost before = r@;
        r.push(line);
        assert(lines_view(r@) =~= lines_view(before).push(line@));
    }
    r
}

/// Whether `folded_query` occurs in `folded_line`; both are already in
/// lower case.
pub fn line_matches(folded_line: &str, folded_query: &str) -> (r: bool)
    ensures
        r == contains_seq(folded_line@, folded_query@),
{
    let hay = chars_of(folded_line);
    let needle = chars_of(folded_query);
    find_chars(&hay, &needle, 0).is_some()
}

/// The numbered lines of `ls` whose lower-case form contains `folded_query`.
pub open spec fn matching_lines(ls: Seq<Seq<char>>, folded_query: Seq<char>) -> Seq<(int, Seq<char>)>
    decreases ls.len(),
{
    if ls.len() == 0 {
        seq![]
    } else {
        let prev = matching_lines(ls.drop_last(), folded_query);
        if contains_seq(lower_of(ls.last()), folded_query) {
            prev.push(((ls.len() - 1) as int, ls.last()))
        } else {
            prev
        }
    }
}

pub open spec fn results_view(v: Seq<(usize, String)>) -> Seq<(int, Seq<char>)> {
    v.map_values(|p: (usize, String)| (p.0 as int, p.1@))
}

/// Every line of `content` that contains `query`, both compared in lower
/// case, with its zero-based line number, in document order.
pub fn search_content(content: &str, query: &str) -> (r: Vec<(usize, String)>)
    ensures
        results_view(r@) == matching_lines(text_lines(content@), lower_of(query@)),
{
    let lines = split_lines(content);
    let folded_query = lowercase(query);
    let mut r: Vec<(usize, String)> = Vec::new();
    let mut i: usize = 0;
    while i < lines.len()
        invariant
            i <= lines.len(),
            folded_query@ == lower_of(query@),
            lines_view(lines@) == text_lines(content@),
            results_view(r@) == matching_lines(lines_view(lines@).take(i as int), folded_query@),
        decreases lines.len() - i,
    {
        proof {
            let t = lines_view(lines@).take(i + 1);
            assert(t.drop_last() =~= lines_view(lines@).take(i as int));
            assert(t.last() == lines@[i as int]@);
        }
        let folded = lowercase(lines[i].as_str());
        if line_matches(folded.as_str(), folded_query.as_str()) {
            let line = lines[i].clone();
            let ghost before = r@;
            r.push((i, line));
            assert(results_view(r@) =~= results_view(before).push((i as int, line@)));
        }
        i = i + 1;
    }
    assert(lines_view(lines@).take(lines.len() as int) =~= lines_view(lines@));
    r
}

} // verus!
