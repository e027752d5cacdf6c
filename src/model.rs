//! Documents and chapters, with their mathematical views.
use vstd::prelude::*;
use vstd::utf8::encode_utf8;

verus! {

broadcast use vstd::slice::group_slice_axioms;

/// A contiguous slice `[start_position, end_position)` of a document's content,
/// in bytes.
#[derive(Clone, Debug)]
pub struct Chapter {
    pub id: String,
    pub title: String,
    pub start_position: usize,
    pub end_position: usize,
}

/// A parsed unit of reading material. All positions are byte offsets into
/// `content`.
#[derive(Clone, Debug)]
pub struct Document {
    pub id: String,
    pub title: String,
    pub author: Option<String>,
    pub file_path: String,
    pub file_type: String,
    pub content: String,
    pub current_position: usize,
    pub total_pages: usize,
    pub chapters: Vec<Chapter>,
    pub cover_image: Option<String>,
}

pub struct ChapterView {
    pub id: Seq<char>,
    pub title: Seq<char>,
    pub start: int,
    pub end: int,
}

pub struct DocumentView {
    pub id: Seq<char>,
    pub title: Seq<char>,
    pub author: Option<Seq<char>>,
    pub file_path: Seq<char>,
    pub file_type: Seq<char>,
    pub content: Seq<char>,
    pub current_position: int,
    pub total_pages: int,
    pub chapters: Seq<ChapterView>,
    pub cover_image: Option<Seq<char>>,
}

pub open spec fn opt_view(o: Option<String>) -> Option<Seq<char>> {
    match o {
        Some(s) => Some(s@),
        None => None,
    }
}

pub open spec fn chapters_view(v: Seq<Chapter>) -> Seq<ChapterView> {
    v.map_values(|c: Chapter| c@)
}

impl View for Chapter {
    type V = ChapterView;

    open spec fn view(&self) -> ChapterView {
        ChapterView {
            id: self.id@,
            title: self.title@,
            start: self.start_position as int,
            end: self.end_position as int,
        }
    }
}

impl View for Document {
    type V = DocumentView;

    open spec fn view(&self) -> DocumentView {
        DocumentView {
            id: self.id@,
            title: self.title@,
            author: opt_view(self.author),
            file_path: self.file_path@,
            file_type: self.file_type@,
            content: self.content@,
            current_position: self.current_position as int,
            total_pages: self.total_pages as int,
            chapters: chapters_view(self.chapters@),
            cover_image: opt_view(self.cover_image),
        }
    }
}

/// The length in bytes of the UTF-8 encoding of `s`.
pub open spec fn byte_len(s: Seq<char>) -> nat {
    encode_utf8(s).len()
}

/// The UTF-8 encoding of a concatenation is the concatenation of the encodings.
pub proof fn lemma_encode_concat(a: Seq<char>, b: Seq<char>)
    ensures
        encode_utf8(a + b) == encode_utf8(a) + encode_utf8(b),
    decreases a.len(),
{
    if a.len() == 0 {
        assert(a + b =~= b);
        assert(encode_utf8(a) + encode_utf8(b) =~= encode_utf8(b));
    } else {
        lemma_encode_concat(a.drop_first(), b);
        assert((a + b).drop_first() =~= a.drop_first() + b);
        assert((a + b)[0] == a[0]);
        assert(encode_utf8(a + b) =~= encode_utf8(a) + encode_utf8(b));
    }
}

pub proof fn lemma_byte_len_concat(a: Seq<char>, b: Seq<char>)
    ensures
        byte_len(a + b) == byte_len(a) + byte_len(b),
{
    lemma_encode_concat(a, b);
}

/// The length of `s` in bytes.
pub fn byte_length(s: &String) -> (n: usize)
    ensures
        n == byte_len(s@),
{
    s.as_str().as_bytes().len()
}

impl Chapter {
    /// A copy with the same view.
    pub fn duplicate(&self) -> (r: Chapter)
        ensures
            r@ == self@,
    {
        Chapter {
            id: self.id.clone(),
            title: self.title.clone(),
            start_position: self.start_position,
            end_position: self.end_position,
        }
    }
}

/// A copy of each chapter, in order.
pub fn copy_chapters(v: &Vec<Chapter>) -> (r: Vec<Chapter>)
    ensures
        chapters_view(r@) == chapters_view(v@),
{
    let mut r: Vec<Chapter> = Vec::new();
    let mut i: usize = 0;
    while i < v.len()
        invariant
            i <= v.len(),
            chapters_view(r@) =~= chapters_view(v@.take(i as int)),
        decreases v.len() - i,
    {
        let c = v[i].duplicate();
        let ghost before = r@;
        r.push(c);
        assert(v@.take(i + 1) =~= v@.take(i as int).push(v@[i as int]));
        assert(chapters_view(r@) =~= chapters_view(before).push(c@));
        assert(chapters_view(v@.take(i + 1)) =~= chapters_view(v@.take(i as int)).push(v@[i as int]@));
        i = i + 1;
    }
    assert(v@.take(v.len() as int) =~= v@);
    r
}

fn copy_opt(o: &Option<String>) -> (r: Option<String>)
    ensures
        opt_view(r) == opt_view(*o),
{
    match o {
        Some(s) => Some(s.clone()),
        None => None,
    }
}

impl Document {
    /// A copy with the same view.
    pub fn duplicate(&self) -> (r: Document)
        ensures
            r@ == self@,
    {
        Document {
            id: self.id.clone(),
            title: self.title.clone(),
            author: copy_opt(&self.author),
            file_path: self.file_path.clone(),
            file_type: self.file_type.clone(),
            content: self.content.clone(),
            current_position: self.current_position,
            total_pages: self.total_pages,
            chapters: copy_chapters(&self.chapters),
            cover_image: copy_opt(&self.cover_image),
        }
    }
}

} // verus!
