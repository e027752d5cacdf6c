//! The reader's in-memory library: documents by identifier, and the reading
//! position saved for each.
use vstd::prelude::*;
use vstd::string::StringExecFns;
use crate::cache::{
    cache_remove, entries_view, entry_position, find_key, keys_unique, lemma_find_key,
    lemma_insert_fresh, lemma_insert_replace, lemma_remove_unique, lookup, CacheView,
};
use crate::dispatch::ReaderError;
use crate::model::{Document, DocumentView};
use crate::search::{lower_of, matching_lines, results_view, search_content, text_lines};

verus! {

/// The entries after storing `v` under `id`, in place of an entry with that
/// key, or else last.
pub open spec fn upsert<V>(s: Seq<(Seq<char>, V)>, id: Seq<char>, v: V) -> Seq<(Seq<char>, V)> {
    let k = find_key(s, id);
    if k >= 0 {
        s.update(k, (id, v))
    } else {
        s.push((id, v))
    }
}

/// The documents after the one under `id`, if any, moved to `position`.
pub open spec fn with_position(s: CacheView, id: Seq<char>, position: int) -> CacheView {
    let k = find_key(s, id);
    if k >= 0 {
        s.update(k, (id, DocumentView { current_position: position, ..s[k].1 }))
    } else {
        s
    }
}

pub open spec fn progress_view(v: Seq<(String, usize)>) -> Seq<(Seq<char>, int)> {
    v.map_values(|e: (String, usize)| (e.0@, e.1 as int))
}

pub open spec fn keyed_by_id(s: CacheView) -> bool {
    forall|i: int| 0 <= i < s.len() ==> #[trigger] s[i].0 == s[i].1.id
}

proof fn lemma_upsert_unique<V>(s: Seq<(Seq<char>, V)>, id: Seq<char>, v: V)
    requires
        keys_unique(s),
    ensures
        keys_unique(upsert(s, id, v)),
{
    lemma_find_key(s, id);
    let k = find_key(s, id);
    if k >= 0 {
        lemma_insert_replace(s, id, v, k);
    } else {
        lemma_insert_fresh(s, id, v, s);
    }
}

fn progress_position(progress: &Vec<(String, usize)>, id: &String) -> (r: Option<usize>)
    ensures
        r matches Some(k) ==> find_key(progress_view(progress@), id@) == k as int,
        r is None ==> find_key(progress_view(progress@), id@) < 0,
{
    let ghost s = progress_view(progress@);
    let mut i = progress.len();
    assert(s.take(i as int) =~= s);
    while i > 0
        invariant
            i <= progress.len(),
            s == progress_view(progress@),
            find_key(s, id@) == find_key(s.take(i as int), id@),
        decreases i,
    {
        proof {
            assert(s.take(i as int).drop_last() =~= s.take(i - 1));
            assert(s.take(i as int).last() == (progress@[i - 1].0@, progress@[i - 1].1 as int));
        }
        if progress[i - 1].0 == *id {
            return Some(i - 1);
        }
        i = i - 1;
    }
    None
}

/// Documents keyed by their identifiers, with a saved reading position for
/// each identifier that has one.
pub struct Library {
    documents: Vec<(String, Document)>,
    progress: Vec<(String, usize)>,
}

impl Library {
    /// The documents, in the order they were first added.
    pub closed spec fn docs(&self) -> CacheView {
        entries_view(self.documents@)
    }

    /// The saved reading positions.
    pub closed spec fn positions(&self) -> Seq<(Seq<char>, int)> {
        progress_view(self.progress@)
    }

    pub open spec fn wf(&self) -> bool {
        keys_unique(self.docs()) && keyed_by_id(self.docs()) && keys_unique(self.positions())
    }

    /// An empty library.
    pub fn new() -> (r: Library)
        ensures
            r.wf(),
            r.docs().len() == 0,
            r.positions().len() == 0,
    {
        Library { documents: Vec::new(), progress: Vec::new() }
    }

    /// Stores `document` under its identifier, in place of any document with
    /// the same identifier.
    pub fn add_document(&mut self, document: Document)
        requires
            old(self).wf(),
        ensures
            final(self).wf(),
            final(self).docs() == upsert(old(self).docs(), document@.id, document@),
            final(self).positions() == old(self).positions(),
    {
        let id = document.id.clone();
        let ghost d = document@;
        proof {
            lemma_upsert_unique(self.docs(), id@, d);
            lemma_find_key(self.docs(), id@);
        }
        match entry_position(&self.documents, &id) {
            Some(k) => {
                self.documents.set(k, (id, document));
            },
            None => {
                self.documents.push((id, document));
            },
        }
        assert(self.docs() =~= upsert(old(self).docs(), d.id, d));
        assert(keyed_by_id(self.docs())) by {
            assert forall|i: int| 0 <= i < self.docs().len() implies #[trigger] self.docs()[i].0
                == self.docs()[i].1.id by {
                if i < old(self).docs().len() && self.docs()[i] != (d.id, d) {
                    assert(self.docs()[i] == old(self).docs()[i]);
                }
            }
        }
        assert(self.positions() =~= old(self).positions());
    }

    /// A copy of the document stored under `id`.
    pub fn get_document(&self, id: &str) -> (r: Option<Document>)
        ensures
            r matches Some(d) ==> lookup(self.docs(), id@) == Some(d@),
            r is None ==> lookup(self.docs(), id@) is None,
    {
        let key = String::from_str(id);
        match entry_position(&self.documents, &key) {
            Some(k) => {
                proof {
                    lemma_find_key(self.docs(), key@);
                }
                Some(self.documents[k].1.duplicate())
            },
            None => None,
        }
    }

    /// Copies of all documents, in the order they were first added.
    pub fn get_all_documents(&self) -> (r: Vec<Document>)
        ensures
            r@.len() == self.docs().len(),
            forall|i: int| 0 <= i < r@.len() ==> #[trigger] r@[i]@ == self.docs()[i].1,
    {
        let mut r: Vec<Document> = Vec::new();
        let mut i: usize = 0;
        while i < self.documents.len()
            invariant
                i <= self.documents.len(),
                r@.len() == i,
                forall|j: int| 0 <= j < i ==> #[trigger] r@[j]@ == self.docs()[j].1,
            decreases self.documents.len() - i,
        {
            r.push(self.documents[i].1.duplicate());
            i = i + 1;
        }
        r
    }

    /// Saves `position` as the reading position of `document_id`, and moves
    /// the stored document, if any, to it.
    pub fn update_progress(&mut self, document_id: String, position: usize)
        requires
            old(self).wf(),
        ensures
            final(self).wf(),
            final(self).positions() == upsert(old(self).positions(), document_id@, position as int),
            final(self).docs() == with_position(old(self).docs(), document_id@, position as int),
    {
        let ghost id = document_id@;
        proof {
            lemma_upsert_unique(self.positions(), id, position as int);
            lemma_find_key(self.positions(), id);
            lemma_find_key(self.docs(), id);
        }
        match entry_position(&self.documents, &document_id) {
            Some(k) => {
                let mut e = self.documents.remove(k);
                e.1.current_position = position;
                self.documents.insert(k, e);
                assert(self.docs() =~= with_position(old(self).docs(), id, position as int));
                assert(keys_unique(self.docs())) by {
                    assert forall|i: int, j: int| 0 <= i < j < self.docs().len() implies #[trigger] self.docs()[i].0
                        != #[trigger] self.docs()[j].0 by {
                        assert(self.docs()[i].0 == old(self).docs()[i].0);
                        assert(self.docs()[j].0 == old(self).docs()[j].0);
                    }
                }
                assert(keyed_by_id(self.docs())) by {
                    assert forall|i: int| 0 <= i < self.docs().len() implies #[trigger] self.docs()[i].0
                        == self.docs()[i].1.id by {
                        assert(old(self).docs()[i].0 == old(self).docs()[i].1.id);
                    }
                }
            },
            None => {
                assert(self.docs() =~= with_position(old(self).docs(), id, position as int));
            },
        }
        match progress_position(&self.progress, &document_id) {
            Some(k) => {
                self.progress.set(k, (document_id, position));
            },
            None => {
                self.progress.push((document_id, position));
            },
        }
        assert(self.positions() =~= upsert(old(self).positions(), id, position as int));
    }

    /// The reading position saved for `document_id`.
    pub fn get_progress(&self, document_id: &str) -> (r: Option<usize>)
        ensures
            r matches Some(p) ==> lookup(self.positions(), document_id@) == Some(p as int),
            r is None ==> lookup(self.positions(), document_id@) is None,
    {
        let key = String::from_str(document_id);
        match progress_position(&self.progress, &key) {
            Some(k) => {
                proof {
                    lemma_find_key(self.positions(), key@);
                }
                Some(self.progress[k].1)
            },
            None => None,
        }
    }

    /// The lines of the stored document's content that contain `query`, both
    /// compared in lower case, with their zero-based line numbers; an error
    /// when no document is stored under `document_id`.
    pub fn search_document(&self, document_id: String, query: String) -> (r: Result<
        Vec<(usize, String)>,
        ReaderError,
    >)
        ensures
            lookup(self.docs(), document_id@) matches Some(d) ==> (r matches Ok(v) && results_view(v@)
                == matching_lines(text_lines(d.content), lower_of(query@))),
            lookup(self.docs(), document_id@) is None ==> (r matches Err(
                ReaderError::DocumentNotFound(m),
            ) && m@ == document_id@),
    {
        match entry_position(&self.documents, &document_id) {
            Some(k) => {
                proof {
                    lemma_find_key(self.docs(), document_id@);
                }
                Ok(search_content(self.documents[k].1.content.as_str(), query.as_str()))
            },
            None => Err(ReaderError::DocumentNotFound(document_id)),
        }
    }

    /// Forgets the document stored under `document_id` and its reading
    /// position; tells whether a document was stored there.
    pub fn remove_document(&mut self, document_id: &str) -> (r: bool)
        requires
            old(self).wf(),
        ensures
            final(self).wf(),
            r == (lookup(old(self).docs(), document_id@) is Some),
            final(self).docs() == cache_remove(old(self).docs(), document_id@),
            final(self).positions() == cache_remove(old(self).positions(), document_id@),
    {
        let key = String::from_str(document_id);
        proof {
            lemma_find_key(self.docs(), key@);
            lemma_find_key(self.positions(), key@);
        }
        match progress_position(&self.progress, &key) {
            Some(k) => {
                self.progress.remove(k);
                assert(self.positions() =~= cache_remove(old(self).positions(), key@));
                proof {
                    lemma_remove_unique(old(self).positions(), k as int);
                }
            },
            None => {},
        }
        match entry_position(&self.documents, &key) {
            Some(k) => {
                self.documents.remove(k);
                assert(self.docs() =~= cache_remove(old(self).docs(), key@));
                proof {
                    lemma_remove_unique(old(self).docs(), k as int);
                }
                assert(keyed_by_id(self.docs())) by {
                    assert forall|i: int| 0 <= i < self.docs().len() implies #[trigger] self.docs()[i].0
                        == self.docs()[i].1.id by {
                        let oi = if i < k { i } else { i + 1 };
                        assert(self.docs()[i] == old(self).docs()[oi]);
                    }
                }
                true
            },
            None => false,
        }
    }
}

} // verus!
