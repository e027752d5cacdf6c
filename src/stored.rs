//! The persisted library record of a document, and lookups over a list of
//! such records.
use vstd::prelude::*;
use vstd::string::StringExecFns;
use crate::model::{opt_view, Document};

verus! {

/// The persisted metadata of a document. Times are milliseconds since the
/// Unix epoch, in UTC.
#[derive(Clone, Debug)]
pub struct StoredDocument {
    pub id: String,
    pub title: String,
    pub author: Option<String>,
    pub file_path: String,
    pub file_type: String,
    pub total_pages: i32,
    pub current_position: i32,
    pub last_read: i64,
    pub added_date: i64,
}

fn copy_opt(o: &Option<String>) -> (r: Option<String>)
    ensures
        opt_view(r) == opt_view(*o),
{
    match o {
        Some(s) => Some(s.clone()),
        None => None,
    }
}

/// The record of a document just opened from `file_path` at time `now`: no
/// reading progress yet, read and added now.
pub fn stored_from_document(document: &Document, file_path: String, now: i64) -> (r: StoredDocument)
    ensures
        r.id@ == document.id@,
        r.title@ == document.title@,
        opt_view(r.author) == opt_view(document.author),
        r.file_path@ == file_path@,
        r.file_type@ == document.file_type@,
        r.total_pages == document.total_pages as i32,
        r.current_position == 0,
        r.last_read == now,
        r.added_date == now,
{
    StoredDocument {
        id: document.id.clone(),
        title: document.title.clone(),
        author: copy_opt(&document.author),
        file_path,
        file_type: document.file_type.clone(),
        total_pages: document.total_pages as i32,
        current_position: 0,
        last_read: now,
        added_date: now,
    }
}

/// The position of the first record whose identifier (`by_path` false) or
/// file path (`by_path` true) is `key`, or -1.
pub open spec fn first_match(docs: Seq<StoredDocument>, key: Seq<char>, by_path: bool) -> int
    decreases docs.len(),
{
    if docs.len() == 0 {
        -1
    } else if (if by_path { docs[0].file_path@ } else { docs[0].id@ }) == key {
        0
    } else {
        let k = first_match(docs.drop_first(), key, by_path);
        if k < 0 {
            -1
        } else {
            k + 1
        }
    }
}

proof fn lemma_first_match_range(docs: Seq<StoredDocument>, key: Seq<char>, by_path: bool)
    ensures
        -1 <= first_match(docs, key, by_path) < docs.len(),
    decreases docs.len(),
{
    if docs.len() > 0 {
        lemma_first_match_range(docs.drop_first(), key, by_path);
    }
}

fn find_record(docs: &Vec<StoredDocument>, key: &str, by_path: bool) -> (r: Option<usize>)
    ensures
        r matches Some(k) ==> first_match(docs@, key@, by_path) == k as int,
        r is None ==> first_match(docs@, key@, by_path) == -1,
{
    let mut i: usize = 0;
    let target = String::from_str(key);
    proof {
        assert(docs@.skip(0) =~= docs@);
        lemma_first_match_range(docs@, target@, by_path);
    }
    while i < docs.len()
        invariant
            i <= docs.len(),
            target@ == key@,
            first_match(docs@, target@, by_path) == (if first_match(docs@.skip(i as int), target@, by_path) < 0 {
                -1
            } else {
                first_match(docs@.skip(i as int), target@, by_path) + i
            }),
        decreases docs.len() - i,
    {
        proof {
            assert(docs@.skip(i as int).drop_first() =~= docs@.skip(i + 1));
            assert(docs@.skip(i as int)[0] == docs@[i as int]);
            lemma_first_match_range(docs@.skip(i + 1), target@, by_path);
        }
        let hit = if by_path {
            docs[i].file_path == target
        } else {
            docs[i].id == target
        };
        if hit {
            assert(docs@.skip(i as int).len() > 0);
            assert(first_match(docs@.skip(i as int), target@, by_path) == 0);
            return Some(i);
        }
        i = i + 1;
    }
    None
}

/// The position of the first record with identifier `id`.
pub fn find_by_id(docs: &Vec<StoredDocument>, id: &str) -> (r: Option<usize>)
    ensures
        r matches Some(k) ==> first_match(docs@, id@, false) == k as int,
        r is None ==> first_match(docs@, id@, false) == -1,
{
    find_record(docs, id, false)
}

/// The position of the first record for the file at `file_path`.
pub fn find_by_path(docs: &Vec<StoredDocument>, file_path: &str) -> (r: Option<usize>)
    ensures
        r matches Some(k) ==> first_match(docs@, file_path@, true) == k as int,
        r is None ==> first_match(docs@, file_path@, true) == -1,
{
    find_record(docs, file_path, true)
}

} // verus!
