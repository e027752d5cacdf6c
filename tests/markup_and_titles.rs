use epub_reader::markup::strip_html_tags;
use epub_reader::pages::{estimate_pages, word_count};
use epub_reader::title::extract_chapter_title;

#[test]
fn strip_round_trip_hello_world() {
    assert_eq!(strip_html_tags("<p>Hello <b>World</b></p>"), "Hello World");
}

#[test]
fn strip_is_idempotent_on_plain_text() {
    let once = strip_html_tags("<div>\n  Some   <i>spaced</i>\ttext &amp; more </div>");
    assert_eq!(once, "Some spaced text &amp; more");
    assert_eq!(strip_html_tags(&once), once);
}

#[test]
fn strip_empty_and_tags_only() {
    assert_eq!(strip_html_tags(""), "");
    assert_eq!(strip_html_tags("<br/><hr>"), "");
    assert_eq!(strip_html_tags("   \n\t "), "");
}

#[test]
fn strip_unclosed_tag_drops_rest() {
    assert_eq!(strip_html_tags("before <a href='x' after"), "before");
    assert_eq!(strip_html_tags("a > b"), "a b");
}

#[test]
fn strip_unicode_whitespace() {
    assert_eq!(strip_html_tags("one\u{3000}two\u{A0}three"), "one two three");
}

#[test]
fn title_from_h1() {
    assert_eq!(extract_chapter_title("<html><h1>Intro</h1><p>x</p></html>", 1), "Intro");
}

#[test]
fn title_h1_preferred_over_h2() {
    let html = "<h2>Second</h2><h1 class=\"t\">First <em>one</em></h1>";
    assert_eq!(extract_chapter_title(html, 4), "First one");
}

#[test]
fn title_from_h2() {
    assert_eq!(extract_chapter_title("<p>x</p><h2 id=\"a\">  Part   Two </h2>", 2), "Part Two");
}

#[test]
fn title_fallback_numbered() {
    assert_eq!(extract_chapter_title("<p>No heading here</p>", 3), "Chapter 3");
    assert_eq!(extract_chapter_title("", 12), "Chapter 12");
    assert_eq!(extract_chapter_title("<h1>never closed", 7), "Chapter 7");
}

#[test]
fn page_estimate_thousand_words() {
    let text = vec!["word"; 1000].join(" ");
    assert_eq!(word_count(&text), 1000);
    assert_eq!(estimate_pages(&text), 2);
}

#[test]
fn page_estimate_ten_words() {
    let text = "one two three four five six seven eight nine ten";
    assert_eq!(word_count(text), 10);
    assert_eq!(estimate_pages(text), 1);
}

#[test]
fn page_estimate_empty_and_boundaries() {
    assert_eq!(estimate_pages(""), 1);
    let text = vec!["w"; 1499].join("\n");
    assert_eq!(estimate_pages(&text), 2);
    let text = vec!["w"; 1500].join("  ");
    assert_eq!(estimate_pages(&text), 3);
}
