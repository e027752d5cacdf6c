use epub_reader::dispatch::ReaderError;
use epub_reader::library::Library;
use epub_reader::model::Document;

fn doc(id: &str, content: &str) -> Document {
    Document {
        id: id.to_string(),
        title: format!("Title {}", id),
        author: None,
        file_path: format!("/{}.txt", id),
        file_type: "txt".to_string(),
        content: content.to_string(),
        current_position: 0,
        total_pages: 1,
        chapters: Vec::new(),
        cover_image: None,
    }
}

#[test]
fn library_add_get_replace() {
    let mut lib = Library::new();
    lib.add_document(doc("a", "one"));
    lib.add_document(doc("b", "two"));
    lib.add_document(doc("a", "uno"));
    let all = lib.get_all_documents();
    assert_eq!(all.len(), 2);
    assert_eq!(all[0].content, "uno");
    assert_eq!(all[1].content, "two");
    assert_eq!(lib.get_document("b").unwrap().title, "Title b");
    assert!(lib.get_document("c").is_none());
}

#[test]
fn library_progress_moves_document() {
    let mut lib = Library::new();
    lib.add_document(doc("a", "text"));
    lib.update_progress("a".to_string(), 42);
    lib.update_progress("ghost".to_string(), 7);
    assert_eq!(lib.get_progress("a"), Some(42));
    assert_eq!(lib.get_progress("ghost"), Some(7));
    assert_eq!(lib.get_document("a").unwrap().current_position, 42);
    lib.update_progress("a".to_string(), 3);
    assert_eq!(lib.get_progress("a"), Some(3));
    assert!(lib.get_progress("none").is_none());
}

#[test]
fn library_search_document() {
    let mut lib = Library::new();
    lib.add_document(doc("a", "abc\nfoo BAR\nxyz"));
    assert_eq!(lib.search_document("a".to_string(), "bar".to_string()).unwrap(), vec![(1, "foo BAR".to_string())]);
    match lib.search_document("zz".to_string(), "bar".to_string()) {
        Err(ReaderError::DocumentNotFound(id)) => assert_eq!(id, "zz"),
        _ => panic!("expected DocumentNotFound"),
    }
}

#[test]
fn library_remove_document() {
    let mut lib = Library::new();
    lib.add_document(doc("a", "x"));
    lib.update_progress("a".to_string(), 1);
    assert!(lib.remove_document("a"));
    assert!(!lib.remove_document("a"));
    assert!(lib.get_document("a").is_none());
    assert!(lib.get_progress("a").is_none());
}
