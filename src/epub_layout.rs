//! EPUB documents: chapters laid end to end in reading order.
use vstd::prelude::*;
use vstd::string::StringExecFns;
use crate::cover::{base64_of, cover_data_uri, data_uri_of, image_mime};
use crate::markup::{strip_html_tags, strip_markup};
use crate::model::{
    byte_len, byte_length, chapters_view, lemma_byte_len_concat, opt_view, Chapter, ChapterView,
    Document,
};
use crate::pages::{estimate_pages, page_estimate};
use crate::text::push_char;
use crate::title::{chapter_title, decimal, extract_chapter_title, push_decimal};

verus! {

/// One entry of the reading order: the resource it names, and the resource's
/// markup where it could be read.
pub struct SpineEntry {
    pub idref: String,
    pub markup: Option<String>,
}

/// What a chapter adds to the content: its plain text and a paragraph break.
pub open spec fn chapter_text(m: Seq<char>) -> Seq<char> {
    strip_markup(m) + seq!['\n', '\n']
}

/// The content of a book whose reading order is `sp`.
pub open spec fn epub_content(sp: Seq<SpineEntry>) -> Seq<char>
    decreases sp.len(),
{
    if sp.len() == 0 {
        seq![]
    } else {
        match sp.last().markup {
            Some(m) => epub_content(sp.drop_last()) + chapter_text(m@),
            None => epub_content(sp.drop_last()),
        }
    }
}

/// The chapter of the entry at `index`, whose markup is `m`, appended after
/// `before`.
pub open spec fn chapter_of(idref: Seq<char>, index: nat, m: Seq<char>, before: Seq<char>) -> ChapterView {
    ChapterView {
        id: idref + seq!['_'] + decimal(index),
        title: chapter_title(m, index + 1),
        start: byte_len(before) as int,
        end: byte_len(before + chapter_text(m)) as int,
    }
}

/// The chapters of a book whose reading order is `sp`: one for each entry
/// whose markup could be read.
pub open spec fn epub_chapters(sp: Seq<SpineEntry>) -> Seq<ChapterView>
    decreases sp.len(),
{
    if sp.len() == 0 {
        seq![]
    } else {
        match sp.last().markup {
            Some(m) => epub_chapters(sp.drop_last()).push(
                chapter_of(
                    sp.last().idref@,
                    (sp.len() - 1) as nat,
                    m@,
                    epub_content(sp.drop_last()),
                ),
            ),
            None => epub_chapters(sp.drop_last()),
        }
    }
}

/// The content and the chapters of a book with reading order `spine`.
pub fn layout_spine(spine: &Vec<SpineEntry>) -> (r: (String, Vec<Chapter>))
    ensures
        r.0@ == epub_content(spine@),
        chapters_view(r.1@) == epub_chapters(spine@),
{
    let mut content = String::new();
    let mut chapters: Vec<Chapter> = Vec::new();
    let mut i: usize = 0;
    while i < spine.len()
        invariant
            i <= spine.len(),
            content@ == epub_content(spine@.take(i as int)),
            chapters_view(chapters@) == epub_chapters(spine@.take(i as int)),
        decreases spine.len() - i,
    {
        let entry = &spine[i];
        proof {
            assert(spine@.take(i + 1).drop_last() =~= spine@.take(i as int));
            assert(spine@.take(i + 1).last() == spine@[i as int]);
        }
        match &entry.markup {
            Some(m) => {
                let start = byte_length(&content);
                let text = strip_html_tags(m.as_str());
                content.append(text.as_str());
                push_char(&mut content, '\n');
                push_char(&mut content, '\n');
                let end = byte_length(&content);
                let title = extract_chapter_title(m.as_str(), i + 1);
                let mut id = entry.idref.clone();
                push_char(&mut id, '_');
                push_decimal(&mut id, i);
                let ch = Chapter { id, title, start_position: start, end_position: end };
                let ghost before = chapters@;
                chapters.push(ch);
                proof {
                    assert(content@ =~= epub_content(spine@.take(i as int)) + chapter_text(m@));
                    assert(chapters_view(chapters@) =~= chapters_view(before).push(ch@));
                    assert(id@ =~= entry.idref@ + seq!['_'] + decimal(i as nat));
                }
            },
            None => {},
        }
        i = i + 1;
    }
    assert(spine@.take(spine.len() as int) =~= spine@);
    (content, chapters)
}

/// Chapters follow each other without gap or overlap, each within the
/// content, and the last one ends where the content ends.
pub proof fn lemma_epub_chapters_tile(sp: Seq<SpineEntry>)
    ensures
        ({
            let cs = epub_chapters(sp);
            let n = byte_len(epub_content(sp)) as int;
            &&& forall|i: int| 0 <= i < cs.len() ==> 0 <= #[trigger] cs[i].start <= cs[i].end <= n
            &&& forall|i: int| 0 <= i < cs.len() - 1 ==> #[trigger] cs[i].end == cs[i + 1].start
            &&& cs.len() > 0 ==> cs.last().end == n
        }),
    decreases sp.len(),
{
    if sp.len() > 0 {
        let rest = sp.drop_last();
        lemma_epub_chapters_tile(rest);
        match sp.last().markup {
            Some(m) => {
                let before = epub_content(rest);
                lemma_byte_len_concat(before, chapter_text(m@));
                let prev = epub_chapters(rest);
                let cs = epub_chapters(sp);
                assert(cs == prev.push(chapter_of(sp.last().idref@, (sp.len() - 1) as nat, m@, before)));
                assert forall|i: int| 0 <= i < cs.len() - 1 implies #[trigger] cs[i].end == cs[i + 1].start by {
                    if i < prev.len() - 1 {
                        assert(cs[i] == prev[i] && cs[i + 1] == prev[i + 1]);
                    } else {
                        assert(cs[i] == prev[i]);
                    }
                }
                assert forall|i: int| 0 <= i < cs.len() implies 0 <= #[trigger] cs[i].start <= cs[i].end <= byte_len(epub_content(sp)) by {
                    if i < prev.len() {
                        assert(cs[i] == prev[i]);
                    }
                }
            },
            None => {},
        }
    }
}

pub open spec fn unknown_title() -> Seq<char> {
    "Unknown Title"@
}

pub open spec fn title_or_default(t: Option<String>) -> Seq<char> {
    match t {
        Some(s) => s@,
        None => unknown_title(),
    }
}

/// Relies on `uuid::Uuid::new_v4` and its `Display`: a random identifier in the
/// hyphenated lower-case form, 36 characters long.
#[verifier::external_body]
pub(crate) fn new_document_id() -> (r: String)
    ensures
        r@.len() == 36,
{
    uuid::Uuid::new_v4().to_string()
}

pub(crate) fn title_or_unknown(t: Option<String>) -> (r: String)
    ensures
        r@ == title_or_default(t),
{
    match t {
        Some(s) => s,
        None => String::from_str("Unknown Title"),
    }
}

/// Builds the document of an EPUB book from what its container holds: the
/// metadata title and creator, the reading order with each entry's markup
/// where it could be read, and the cover image's bytes if there is one.
pub fn assemble_epub(
    file_path: String,
    title: Option<String>,
    creator: Option<String>,
    spine: &Vec<SpineEntry>,
    cover: Option<Vec<u8>>,
) -> (d: Document)
    requires
        cover matches Some(b) ==> b@.len() <= usize::MAX / 2,
    ensures
        d@.id.len() == 36,
        d@.title == title_or_default(title),
        d@.author == opt_view(creator),
        d@.file_path == file_path@,
        d@.file_type == "epub"@,
        d@.content == epub_content(spine@),
        d@.current_position == 0,
        d@.total_pages == page_estimate(epub_content(spine@)),
        d@.chapters == epub_chapters(spine@),
        d@.cover_image == (match cover {
            Some(b) => Some(data_uri_of(image_mime(b@), base64_of(b@))),
            None => None,
        }),
{
    let (content, chapters) = layout_spine(spine);
    let total_pages = estimate_pages(content.as_str());
    let cover_image = match &cover {
        Some(b) => Some(cover_data_uri(b)),
        None => None,
    };
    Document {
        id: new_document_id(),
        title: title_or_unknown(title),
        author: creator,
        file_path,
        file_type: String::from_str("epub"),
        content,
        current_position: 0,
        total_pages,
        chapters,
        cover_image,
    }
}

} // verus!
