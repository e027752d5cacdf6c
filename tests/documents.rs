use epub_reader::cover::{cover_data_uri, data_uri, image_mime_type};
use epub_reader::dispatch::{detect_format, file_extension, DocumentFormat, ReaderError};
use epub_reader::epub_layout::{assemble_epub, layout_spine, SpineEntry};
use epub_reader::formats::{assemble_pdf, assemble_txt, normalize_text};
use epub_reader::search::{line_matches, search_content, split_lines};

fn entry(idref: &str, markup: Option<&str>) -> SpineEntry {
    SpineEntry { idref: idref.to_string(), markup: markup.map(|m| m.to_string()) }
}

#[test]
fn epub_chapters_tile_the_content() {
    let spine = vec![
        entry("c1", Some("<h1>Intro</h1>\n<p>Hello world</p>")),
        entry("bad", None),
        entry("c3", Some("<p>Caf\u{e9} na\u{ef}ve</p>")),
        entry("c4", Some("<h2>End</h2>")),
    ];
    let (content, chapters) = layout_spine(&spine);
    assert_eq!(content, "Intro Hello world\n\nCaf\u{e9} na\u{ef}ve\n\nEnd\n\n");
    assert_eq!(chapters.len(), 3);
    for c in &chapters {
        assert!(c.start_position <= c.end_position);
    }
    for w in chapters.windows(2) {
        assert_eq!(w[0].end_position, w[1].start_position);
    }
    assert_eq!(chapters[0].start_position, 0);
    assert_eq!(chapters[2].end_position, content.len());
    assert_eq!(chapters[1].start_position, 19);
    assert_eq!(chapters[1].end_position, 19 + "Caf\u{e9} na\u{ef}ve\n\n".len());
    assert_eq!(chapters[0].id, "c1_0");
    assert_eq!(chapters[1].id, "c3_2");
    assert_eq!(chapters[2].id, "c4_3");
    assert_eq!(chapters[0].title, "Intro");
    assert_eq!(chapters[1].title, "Chapter 3");
    assert_eq!(chapters[2].title, "End");
}

#[test]
fn epub_empty_spine() {
    let (content, chapters) = layout_spine(&Vec::new());
    assert_eq!(content, "");
    assert!(chapters.is_empty());
}

#[test]
fn epub_document_fields() {
    let spine = vec![entry("a", Some("<p>one two</p>"))];
    let d = assemble_epub("/books/a.epub".to_string(), None, Some("Ann".to_string()), &spine, None);
    assert_eq!(d.title, "Unknown Title");
    assert_eq!(d.author.as_deref(), Some("Ann"));
    assert_eq!(d.file_type, "epub");
    assert_eq!(d.file_path, "/books/a.epub");
    assert_eq!(d.content, "one two\n\n");
    assert_eq!(d.current_position, 0);
    assert_eq!(d.total_pages, 1);
    assert_eq!(d.id.len(), 36);
    assert!(d.cover_image.is_none());
    let e = assemble_epub("p".to_string(), Some("T".to_string()), None, &spine, None);
    assert_eq!(e.title, "T");
    assert_ne!(d.id, e.id);
}

#[test]
fn epub_document_cover() {
    let d = assemble_epub("p".to_string(), None, None, &Vec::new(), Some(vec![0x89, b'P', b'N', b'G']));
    assert_eq!(d.cover_image.as_deref(), Some("data:image/png;base64,iVBORw=="));
}

#[test]
fn cover_mime_sniffing() {
    assert_eq!(image_mime_type(&vec![0x89, b'P', b'N', b'G', 1, 2]), "image/png");
    assert_eq!(image_mime_type(&vec![0xFF, 0xD8, 0xFF]), "image/jpeg");
    assert_eq!(image_mime_type(&b"WEBPxxxx".to_vec()), "image/webp");
    assert_eq!(image_mime_type(&b"RIFF....WEBP".to_vec()), "image/jpeg");
    assert_eq!(image_mime_type(&vec![]), "image/jpeg");
    assert_eq!(image_mime_type(&vec![0x89, b'P']), "image/jpeg");
}

#[test]
fn cover_data_uri_encodes() {
    assert_eq!(cover_data_uri(&vec![0xFF, 0xD8, 0xFF]), "data:image/jpeg;base64,/9j/");
    assert_eq!(cover_data_uri(&b"hello".to_vec()), "data:image/jpeg;base64,aGVsbG8=");
    assert_eq!(data_uri(&b"WEBP".to_vec(), "QUJD"), "data:image/webp;base64,QUJD");
}

#[test]
fn pdf_text_normalized() {
    assert_eq!(normalize_text("  a  \n\n\t\nb \r\n c"), "a\nb\nc");
    assert_eq!(normalize_text(""), "");
    assert_eq!(normalize_text("\n \n"), "");
    let pages = vec![Some("Page one  \n  line".to_string()), None, Some("\n two".to_string())];
    let d = assemble_pdf("f.pdf".to_string(), None, Some("Bo".to_string()), &pages);
    assert_eq!(d.content, "Page one\nline\ntwo");
    assert_eq!(d.total_pages, 3);
    assert_eq!(d.title, "Unknown Title");
    assert_eq!(d.author.as_deref(), Some("Bo"));
    assert_eq!(d.file_type, "pdf");
    assert!(d.chapters.is_empty());
    assert!(d.cover_image.is_none());
}

#[test]
fn txt_document_fields() {
    let d = assemble_txt("/x/notes.txt".to_string(), Some("notes".to_string()), "a b c".to_string());
    assert_eq!(d.title, "notes");
    assert_eq!(d.content, "a b c");
    assert_eq!(d.total_pages, 1);
    assert_eq!(d.file_type, "txt");
    assert!(d.author.is_none());
    let e = assemble_txt("/x/".to_string(), None, String::new());
    assert_eq!(e.title, "Unknown Title");
}

#[test]
fn dispatch_mixed_case_epub() {
    assert_eq!(detect_format("book.EPUB").unwrap(), DocumentFormat::Epub);
    assert_eq!(detect_format("/a/b/Report.Pdf").unwrap(), DocumentFormat::Pdf);
    assert_eq!(detect_format("dir.d/readme.txt").unwrap(), DocumentFormat::Txt);
}

#[test]
fn dispatch_no_extension_unsupported() {
    assert!(matches!(detect_format("notes"), Err(ReaderError::UnsupportedFormat(_))));
    assert!(matches!(detect_format(".epub"), Err(ReaderError::UnsupportedFormat(_))));
    assert!(matches!(detect_format("dir.epub/notes"), Err(ReaderError::UnsupportedFormat(_))));
    match detect_format("song.mp3") {
        Err(ReaderError::UnsupportedFormat(e)) => assert_eq!(e, "mp3"),
        _ => panic!("expected an unsupported format"),
    }
}

#[test]
fn extension_edge_cases() {
    assert_eq!(file_extension("a/b.tar.gz").as_deref(), Some("gz"));
    assert_eq!(file_extension("a/b.epub/").as_deref(), Some("epub"));
    assert_eq!(file_extension("..").as_deref(), None);
    assert_eq!(file_extension("x.").as_deref(), Some(""));
    assert_eq!(file_extension("").as_deref(), None);
}

#[test]
fn error_messages() {
    assert_eq!(ReaderError::UnsupportedFormat("mp3".to_string()).message(), "Unsupported file format: mp3");
    assert_eq!(ReaderError::DocumentNotFound("42".to_string()).message(), "Document not found: 42");
    assert_eq!(ReaderError::OpenError("bad".to_string()).message(), "Failed to open document: bad");
    assert_eq!(ReaderError::ReadError("io".to_string()).message(), "Failed to read text file: io");
}

#[test]
fn search_finds_case_insensitive() {
    let r = search_content("abc\nfoo BAR\nxyz", "bar");
    assert_eq!(r, vec![(1, "foo BAR".to_string())]);
}

#[test]
fn search_upper_query_and_several_hits() {
    let r = search_content("Bar one\r\nnone\nbarbar\n", "BAR");
    assert_eq!(r, vec![(0, "Bar one".to_string()), (2, "barbar".to_string())]);
    assert!(search_content("", "x").is_empty());
    assert_eq!(search_content("a\nb", "").len(), 2);
}

#[test]
fn lines_split_like_std() {
    for s in ["", "a", "a\n", "a\r\nb", "\n\nx\r", "x\n\n", "\r\n"] {
        let expect: Vec<String> = s.lines().map(|l| l.to_string()).collect();
        assert_eq!(split_lines(s), expect);
    }
}

#[test]
fn line_match_on_folded_text() {
    assert!(line_matches("foo bar", "bar"));
    assert!(!line_matches("foo bar", "BAR"));
    assert!(line_matches("anything", ""));
    assert!(!line_matches("", "a"));
}
