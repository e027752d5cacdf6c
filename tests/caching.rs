use epub_reader::cache::{chapters_after_index, ChapterStep, DocumentCache};
use epub_reader::model::{Chapter, Document};

fn doc(id: &str, content: &str, chapters: usize) -> Document {
    let mut cs = Vec::new();
    for i in 0..chapters {
        cs.push(Chapter { id: format!("c_{}", i), title: format!("Chapter {}", i + 1), start_position: i, end_position: i + 1 });
    }
    Document {
        id: id.to_string(),
        title: "T".to_string(),
        author: None,
        file_path: format!("/{}.epub", id),
        file_type: "epub".to_string(),
        content: content.to_string(),
        current_position: 0,
        total_pages: 1,
        chapters: cs,
        cover_image: None,
    }
}

#[test]
fn cache_keeps_five_of_six() {
    let mut cache = DocumentCache::new();
    for i in 0..6 {
        cache.set(format!("d{}", i), doc(&format!("d{}", i), &format!("content {}", i), 0));
    }
    assert_eq!(cache.len(), 5);
    assert!(!cache.contains("d0"));
    for i in 1..6 {
        let d = cache.get(&format!("d{}", i)).unwrap();
        assert_eq!(d.content, format!("content {}", i));
    }
}

#[test]
fn cache_replace_and_clear() {
    let mut cache = DocumentCache::new();
    cache.set("a".to_string(), doc("a", "old", 0));
    cache.set("b".to_string(), doc("b", "b", 0));
    cache.set("a".to_string(), doc("a", "new", 0));
    assert_eq!(cache.len(), 2);
    assert_eq!(cache.get("a").unwrap().content, "new");
    assert_eq!(cache.cached_content("b").as_deref(), Some("b"));
    assert!(cache.cached_content("zz").is_none());
    cache.clear("a");
    assert!(cache.get("a").is_none());
    assert_eq!(cache.len(), 1);
    cache.clear("zzz");
    assert_eq!(cache.len(), 1);
}

#[test]
fn cache_replace_when_full_keeps_all() {
    let mut cache = DocumentCache::new();
    for i in 0..5 {
        cache.set(format!("d{}", i), doc("x", "c", 0));
    }
    cache.set("d0".to_string(), doc("x", "fresh", 0));
    assert_eq!(cache.len(), 5);
    assert_eq!(cache.get("d0").unwrap().content, "fresh");
    cache.set("d5".to_string(), doc("x", "c", 0));
    assert!(!cache.contains("d0"));
    assert!(cache.contains("d1"));
    assert!(cache.contains("d5"));
}

#[test]
fn chapters_cold_then_warm() {
    let mut cache = DocumentCache::new();
    let mut parses = 0;
    let mut index: Option<Vec<Chapter>> = None;
    let mut answers = Vec::new();
    for _ in 0..2 {
        let step = match cache.chapters_step("book") {
            ChapterStep::LoadIndex => chapters_after_index(index.clone()),
            other => other,
        };
        let chapters = match step {
            ChapterStep::Ready(v) => v,
            ChapterStep::ParseSource => {
                parses += 1;
                let (answer, record) = cache.finish_parse("book".to_string(), doc("fresh", "text", 2));
                if record.is_some() {
                    index = record;
                }
                answer
            }
            ChapterStep::LoadIndex => panic!("index lookup asked twice"),
        };
        answers.push(chapters.len());
    }
    assert_eq!(parses, 1);
    assert_eq!(answers, vec![2, 2]);
    assert!(cache.contains("book"));
    assert_eq!(index.map(|v| v.len()), Some(2));
}

#[test]
fn chapters_from_index_without_parse() {
    let cache = DocumentCache::new();
    assert!(matches!(cache.chapters_step("x"), ChapterStep::LoadIndex));
    let stored = vec![Chapter { id: "a_0".to_string(), title: "A".to_string(), start_position: 0, end_position: 3 }];
    match chapters_after_index(Some(stored)) {
        ChapterStep::Ready(v) => assert_eq!(v[0].title, "A"),
        _ => panic!("expected chapters"),
    }
    assert!(matches!(chapters_after_index(None), ChapterStep::ParseSource));
}

#[test]
fn parse_without_chapters_writes_no_index() {
    let mut cache = DocumentCache::new();
    let (answer, record) = cache.finish_parse("t".to_string(), doc("t", "plain", 0));
    assert!(answer.is_empty());
    assert!(record.is_none());
    assert!(cache.contains("t"));
}
