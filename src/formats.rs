//! PDF and plain-text documents.
use vstd::prelude::*;
use vstd::string::StringExecFns;
use crate::epub_layout::{new_document_id, title_or_default, title_or_unknown};
use crate::model::{opt_view, Chapter, Document};
use crate::pages::{estimate_pages, page_estimate};
use crate::text::{
    all_nonempty, chars_of, is_ws, is_ws_char, join_with, lemma_join_empty, lemma_join_push,
    push_char,
};

verus! {

/// `s` without its leading whitespace.
pub open spec fn trim_start(s: Seq<char>) -> Seq<char>
    decreases s.len(),
{
    if s.len() > 0 && is_ws(s[0]) {
        trim_start(s.drop_first())
    } else {
        s
    }
}

/// `s` without its trailing whitespace.
pub open spec fn trim_end(s: Seq<char>) -> Seq<char>
    decreases s.len(),
{
    if s.len() > 0 && is_ws(s.last()) {
        trim_end(s.drop_last())
    } else {
        s
    }
}

/// `s` without whitespace at either end.
pub open spec fn trim(s: Seq<char>) -> Seq<char> {
    trim_end(trim_start(s))
}

/// The bounds of `v[lo..hi]` with whitespace at either end left out.
pub fn trim_range(v: &Vec<char>, lo: usize, hi: usize) -> (r: (usize, usize))
    requires
        lo <= hi <= v.len(),
    ensures
        lo <= r.0 <= r.1 <= hi,
        v@.subrange(r.0 as int, r.1 as int) == trim(v@.subrange(lo as int, hi as int)),
{
    let mut a = lo;
    while a < hi && is_ws_char(v[a])
        invariant
            lo <= a <= hi <= v.len(),
            trim_start(v@.subrange(lo as int, hi as int)) == trim_start(v@.subrange(a as int, hi as int)),
        decreases hi - a,
    {
        assert(v@.subrange(a as int, hi as int).drop_first() =~= v@.subrange(a + 1, hi as int));
        a = a + 1;
    }
    let mut b = hi;
    while b > a && is_ws_char(v[b - 1])
        invariant
            lo <= a <= b <= hi <= v.len(),
            trim_end(v@.subrange(a as int, hi as int)) == trim_end(v@.subrange(a as int, b as int)),
        decreases b - a,
    {
        assert(v@.subrange(a as int, b as int).drop_last() =~= v@.subrange(a as int, b - 1));
        b = b - 1;
    }
    (a, b)
}

/// Appends the characters `v[lo..hi]`.
pub fn append_range(out: &mut String, v: &Vec<char>, lo: usize, hi: usize)
    requires
        lo <= hi <= v.len(),
    ensures
        final(out)@ == old(out)@ + v@.subrange(lo as int, hi as int),
{
    let mut i = lo;
    while i < hi
        invariant
            lo <= i <= hi <= v.len(),
            out@ == old(out)@ + v@.subrange(lo as int, i as int),
        decreases hi - i,
    {
        push_char(out, v[i]);
        assert(v@.subrange(lo as int, i + 1) =~= v@.subrange(lo as int, i as int).push(v@[i as int]));
        assert(out@ =~= old(out)@ + v@.subrange(lo as int, i + 1));
        i = i + 1;
    }
}

/// The state of a left-to-right split into lines: the trimmed, non-empty
/// lines completed so far and the line being read.
pub open spec fn line_state(s: Seq<char>) -> (Seq<Seq<char>>, Seq<char>)
    decreases s.len(),
{
    if s.len() == 0 {
        (seq![], seq![])
    } else {
        let (ls, cur) = line_state(s.drop_last());
        if s.last() == '\n' {
            if trim(cur).len() > 0 {
                (ls.push(trim(cur)), seq![])
            } else {
                (ls, seq![])
            }
        } else {
            (ls, cur.push(s.last()))
        }
    }
}

/// The lines of `s`, each trimmed, with the empty ones left out.
pub open spec fn kept_lines(s: Seq<char>) -> Seq<Seq<char>> {
    let (ls, cur) = line_state(s);
    if trim(cur).len() > 0 {
        ls.push(trim(cur))
    } else {
        ls
    }
}

/// The kept lines of `s`, one per line.
pub open spec fn normalize_lines(s: Seq<char>) -> Seq<char> {
    join_with(kept_lines(s), seq!['\n'])
}

proof fn lemma_line_state_nonempty(s: Seq<char>)
    ensures
        all_nonempty(line_state(s).0),
    decreases s.len(),
{
    if s.len() > 0 {
        lemma_line_state_nonempty(s.drop_last());
    }
}

fn push_line(out: &mut String, v: &Vec<char>, lo: usize, hi: usize, Ghost(ls): Ghost<Seq<Seq<char>>>)
    requires
        lo <= hi <= v.len(),
        all_nonempty(ls),
        old(out)@ == join_with(ls, seq!['\n']),
    ensures
        ({
            let t = trim(v@.subrange(lo as int, hi as int));
            if t.len() > 0 {
                final(out)@ == join_with(ls.push(t), seq!['\n'])
            } else {
                final(out)@ == old(out)@
            }
        }),
{
    let (a, b) = trim_range(v, lo, hi);
    proof {
        lemma_join_empty(ls, seq!['\n']);
        lemma_join_push(ls, seq!['\n'], v@.subrange(a as int, b as int));
    }
    if a < b {
        if !out.as_str().is_empty() {
            push_char(out, '\n');
        }
        append_range(out, v, a, b);
    }
}

/// Trims every line of `text`, drops the empty ones and joins the rest with
/// single line breaks.
pub fn normalize_text(text: &str) -> (r: String)
    ensures
        r@ == normalize_lines(text@),
{
    let v = chars_of(text);
    let mut out = String::new();
    let mut start: usize = 0;
    let mut i: usize = 0;
    let ghost mut ls: Seq<Seq<char>> = seq![];
    while i < v.len()
        invariant
            start <= i <= v.len(),
            line_state(v@.take(i as int)) == (ls, v@.subrange(start as int, i as int)),
            out@ == join_with(ls, seq!['\n']),
            all_nonempty(ls),
        decreases v.len() - i,
    {
        let c = v[i];
        proof {
            assert(v@.take(i + 1).drop_last() =~= v@.take(i as int));
            assert(v@.take(i + 1).last() == c);
            lemma_line_state_nonempty(v@.take(i + 1));
        }
        if c == '\n' {
            push_line(&mut out, &v, start, i, Ghost(ls));
            proof {
                let t = trim(v@.subrange(start as int, i as int));
                if t.len() > 0 {
                    ls = ls.push(t);
                }
                assert(v@.subrange(i + 1, i + 1) =~= Seq::<char>::empty());
            }
            start = i + 1;
        } else {
            assert(v@.subrange(start as int, i + 1) =~= v@.subrange(start as int, i as int).push(c));
        }
        i = i + 1;
    }
    assert(v@.take(v.len() as int) =~= text@);
    push_line(&mut out, &v, start, v.len(), Ghost(ls));
    out
}

/// The text of the pages whose text could be extracted, each followed by a
/// paragraph break.
pub open spec fn pages_text(pages: Seq<Option<String>>) -> Seq<char>
    decreases pages.len(),
{
    if pages.len() == 0 {
        seq![]
    } else {
        match pages.last() {
            Some(t) => pages_text(pages.drop_last()) + t@ + seq!['\n', '\n'],
            None => pages_text(pages.drop_last()),
        }
    }
}

/// The pages' texts laid end to end, each followed by a paragraph break.
pub fn join_pages(pages: &Vec<Option<String>>) -> (r: String)
    ensures
        r@ == pages_text(pages@),
{
    let mut r = String::new();
    let mut i: usize = 0;
    while i < pages.len()
        invariant
            i <= pages.len(),
            r@ == pages_text(pages@.take(i as int)),
        decreases pages.len() - i,
    {
        proof {
            assert(pages@.take(i + 1).drop_last() =~= pages@.take(i as int));
            assert(pages@.take(i + 1).last() == pages@[i as int]);
        }
        match &pages[i] {
            Some(t) => {
                r.append(t.as_str());
                push_char(&mut r, '\n');
                push_char(&mut r, '\n');
                assert(r@ =~= pages_text(pages@.take(i + 1)));
            },
            None => {},
        }
        i = i + 1;
    }
    assert(pages@.take(pages.len() as int) =~= pages@);
    r
}

/// Builds the document of a PDF file from its information-dictionary title and
/// author, where they could be read, and the text of each page in page order,
/// where it could be extracted.
pub fn assemble_pdf(
    file_path: String,
    title: Option<String>,
    author: Option<String>,
    pages: &Vec<Option<String>>,
) -> (d: Document)
    ensures
        d@.id.len() == 36,
        d@.title == title_or_default(title),
        d@.author == opt_view(author),
        d@.file_path == file_path@,
        d@.file_type == "pdf"@,
        d@.content == normalize_lines(pages_text(pages@)),
        d@.current_position == 0,
        d@.total_pages == pages@.len(),
        d@.chapters.len() == 0,
        d@.cover_image is None,
{
    let raw = join_pages(pages);
    let content = normalize_text(raw.as_str());
    let chapters: Vec<Chapter> = Vec::new();
    Document {
        id: new_document_id(),
        title: title_or_unknown(title),
        author,
        file_path,
        file_type: String::from_str("pdf"),
        content,
        current_position: 0,
        total_pages: pages.len(),
        chapters,
        cover_image: None,
    }
}

/// Builds the document of a plain-text file from its file stem, where it
/// could be read, and its text.
pub fn assemble_txt(file_path: String, stem: Option<String>, content: String) -> (d: Document)
    ensures
        d@.id.len() == 36,
        d@.title == title_or_default(stem),
        d@.author is None,
        d@.file_path == file_path@,
        d@.file_type == "txt"@,
        d@.content == content@,
        d@.current_position == 0,
        d@.total_pages == page_estimate(content@),
        d@.chapters.len() == 0,
        d@.cover_image is None,
{
    let total_pages = estimate_pages(content.as_str());
    let chapters: Vec<Chapter> = Vec::new();
    Document {
        id: new_document_id(),
        title: title_or_unknown(stem),
        author: None,
        file_path,
        file_type: String::from_str("txt"),
        content,
        current_position: 0,
        total_pages,
        chapters,
        cover_image: None,
    }
}

} // verus!
