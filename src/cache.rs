//! The bounded in-memory document cache, and the steps that resolve a
//! request for chapters through the memory tier, the persistent chapter
//! index and, on a full miss, a parse.
use vstd::prelude::*;
use vstd::string::StringExecFns;
use crate::model::{chapters_view, copy_chapters, Chapter, ChapterView, Document, DocumentView};

verus! {

/// The most documents the cache holds.
pub const CACHE_CAPACITY: usize = 5;

pub type CacheView = Seq<(Seq<char>, DocumentView)>;

/// The position of the entry with key `id`, or -1.
pub open spec fn find_key<V>(s: Seq<(Seq<char>, V)>, id: Seq<char>) -> int
    decreases s.len(),
{
    if s.len() == 0 {
        -1
    } else if s.last().0 == id {
        s.len() - 1
    } else {
        find_key(s.drop_last(), id)
    }
}

/// The document cached under `id`.
pub open spec fn lookup<V>(s: Seq<(Seq<char>, V)>, id: Seq<char>) -> Option<V> {
    let k = find_key(s, id);
    if k < 0 {
        None
    } else {
        Some(s[k].1)
    }
}

pub open spec fn keys_unique<V>(s: Seq<(Seq<char>, V)>) -> bool {
    forall|i: int, j: int| 0 <= i < j < s.len() ==> #[trigger] s[i].0 != #[trigger] s[j].0
}

/// At most `CACHE_CAPACITY` entries, each key at most once.
pub open spec fn cache_wf(s: CacheView) -> bool {
    s.len() <= CACHE_CAPACITY && keys_unique(s)
}

/// The entries after storing `d` under `id`: an entry with that key is
/// replaced where it stands; otherwise, when the cache is full, the oldest
/// entry leaves, and the new one comes last.
pub open spec fn cache_insert(s: CacheView, id: Seq<char>, d: DocumentView) -> CacheView {
    let k = find_key(s, id);
    if k >= 0 {
        s.update(k, (id, d))
    } else if s.len() >= CACHE_CAPACITY {
        s.drop_first().push((id, d))
    } else {
        s.push((id, d))
    }
}

/// The entries without the one under `id`.
pub open spec fn cache_remove<V>(s: Seq<(Seq<char>, V)>, id: Seq<char>) -> Seq<(Seq<char>, V)> {
    let k = find_key(s, id);
    if k >= 0 {
        s.remove(k)
    } else {
        s
    }
}

pub proof fn lemma_find_key<V>(s: Seq<(Seq<char>, V)>, id: Seq<char>)
    ensures
        find_key(s, id) < 0 <==> forall|i: int| 0 <= i < s.len() ==> #[trigger] s[i].0 != id,
        find_key(s, id) >= 0 ==> 0 <= find_key(s, id) < s.len() && s[find_key(s, id)].0 == id,
        find_key(s, id) >= -1,
    decreases s.len(),
{
    if s.len() > 0 {
        let p = s.drop_last();
        lemma_find_key(p, id);
        if s.last().0 != id {
            if find_key(s, id) < 0 {
                assert forall|i: int| 0 <= i < s.len() implies #[trigger] s[i].0 != id by {
                    if i < s.len() - 1 {
                        assert(s[i] == p[i]);
                    }
                }
            }
            if forall|i: int| 0 <= i < s.len() ==> #[trigger] s[i].0 != id {
                assert forall|i: int| 0 <= i < p.len() implies #[trigger] p[i].0 != id by {
                    assert(s[i] == p[i]);
                }
            }
            if find_key(s, id) >= 0 {
                assert(s[find_key(s, id)] == p[find_key(p, id)]);
            }
        } else {
            assert(s[s.len() - 1].0 == id);
        }
    }
}

/// A document cache holding at most `CACHE_CAPACITY` documents, keyed by
/// document identifier, in the order they were first stored.
pub struct DocumentCache {
    entries: Vec<(String, Document)>,
}

pub open spec fn entry_view(e: (String, Document)) -> (Seq<char>, DocumentView) {
    (e.0@, e.1@)
}

pub open spec fn entries_view(v: Seq<(String, Document)>) -> CacheView {
    v.map_values(|e: (String, Document)| entry_view(e))
}

/// The position of the entry with key `id`.
pub fn entry_position(entries: &Vec<(String, Document)>, id: &String) -> (r: Option<usize>)
    ensures
        r matches Some(k) ==> find_key(entries_view(entries@), id@) == k as int,
        r is None ==> find_key(entries_view(entries@), id@) < 0,
{
    let ghost s = entries_view(entries@);
    let mut i = entries.len();
    assert(s.take(i as int) =~= s);
    while i > 0
        invariant
            i <= entries.len(),
            s == entries_view(entries@),
            find_key(s, id@) == find_key(s.take(i as int), id@),
        decreases i,
    {
        proof {
            assert(s.take(i as int).drop_last() =~= s.take(i - 1));
            assert(s.take(i as int).last() == entry_view(entries@[i - 1]));
        }
        if entries[i - 1].0 == *id {
            return Some(i - 1);
        }
        i = i - 1;
    }
    None
}

impl View for DocumentCache {
    type V = CacheView;

    closed spec fn view(&self) -> CacheView {
        entries_view(self.entries@)
    }
}

impl DocumentCache {
    pub open spec fn wf(&self) -> bool {
        cache_wf(self@)
    }

    /// An empty cache.
    pub fn new() -> (r: DocumentCache)
        ensures
            r@ == Seq::<(Seq<char>, DocumentView)>::empty(),
            r.wf(),
    {
        let r = DocumentCache { entries: Vec::new() };
        assert(r@ =~= Seq::<(Seq<char>, DocumentView)>::empty());
        r
    }

    /// The number of cached documents.
    pub fn len(&self) -> (n: usize)
        ensures
            n == self@.len(),
    {
        self.entries.len()
    }

    fn position(&self, id: &String) -> (r: Option<usize>)
        ensures
            r matches Some(k) ==> find_key(self@, id@) == k as int,
            r is None ==> find_key(self@, id@) < 0,
    {
        entry_position(&self.entries, id)
    }

    /// Whether a document is cached under `document_id`.
    pub fn contains(&self, document_id: &str) -> (r: bool)
        ensures
            r == (lookup(self@, document_id@) is Some),
    {
        let id = String::from_str(document_id);
        self.position(&id).is_some()
    }

    /// A copy of the document cached under `document_id`.
    pub fn get(&self, document_id: &str) -> (r: Option<Document>)
        ensures
            r matches Some(d) ==> lookup(self@, document_id@) == Some(d@),
            r is None ==> lookup(self@, document_id@) is None,
    {
        let id = String::from_str(document_id);
        match self.position(&id) {
            Some(k) => {
                proof {
                    lemma_find_key(self@, id@);
                }
                Some(self.entries[k].1.duplicate())
            },
            None => None,
        }
    }

    /// The content of the document cached under `document_id`.
    pub fn cached_content(&self, document_id: &str) -> (r: Option<String>)
        ensures
            r matches Some(c) ==> (lookup(self@, document_id@) matches Some(d) && d.content == c@),
            r is None ==> lookup(self@, document_id@) is None,
    {
        match self.get(document_id) {
            Some(d) => Some(d.content),
            None => None,
        }
    }

    /// Stores `document` under `document_id`, replacing an entry with that
    /// key, or else making room by dropping the oldest entry when full.
    pub fn set(&mut self, document_id: String, document: Document)
        requires
            old(self).wf(),
        ensures
            final(self)@ == cache_insert(old(self)@, document_id@, document@),
            final(self).wf(),
    {
        proof {
            lemma_insert_wf(self@, document_id@, document@);
            lemma_find_key(self@, document_id@);
        }
        let ghost e = entry_view((document_id, document));
        match self.position(&document_id) {
            Some(k) => {
                self.entries.set(k, (document_id, document));
                assert(self@ =~= cache_insert(old(self)@, e.0, e.1));
            },
            None => {
                if self.entries.len() >= CACHE_CAPACITY {
                    self.entries.remove(0);
                }
                self.entries.push((document_id, document));
                assert(self@ =~= cache_insert(old(self)@, e.0, e.1));
            },
        }
    }

    /// Drops the document cached under `document_id`, if any.
    pub fn clear(&mut self, document_id: &str)
        requires
            old(self).wf(),
        ensures
            final(self)@ == cache_remove(old(self)@, document_id@),
            final(self).wf(),
    {
        let id = String::from_str(document_id);
        proof {
            lemma_find_key(self@, id@);
        }
        match self.position(&id) {
            Some(k) => {
                self.entries.remove(k);
                assert(self@ =~= cache_remove(old(self)@, id@));
                proof {
                    lemma_remove_unique(old(self)@, k as int);
                }
            },
            None => {},
        }
    }
}

/// Storing a document keeps the cache within its capacity with unique keys;
/// afterwards the document is found under its key, every entry is the new
/// one or one that was there before, and a fresh key stored into a full cache
/// leaves it exactly full.
pub proof fn lemma_insert_wf(s: CacheView, id: Seq<char>, d: DocumentView)
    requires
        cache_wf(s),
    ensures
        cache_wf(cache_insert(s, id, d)),
        lookup(cache_insert(s, id, d), id) == Some(d),
        forall|i: int| 0 <= i < cache_insert(s, id, d).len() ==> #[trigger] cache_insert(s, id, d)[i] == (id, d)
            || exists|j: int| 0 <= j < s.len() && s[j] == cache_insert(s, id, d)[i],
        find_key(s, id) < 0 && s.len() == CACHE_CAPACITY ==> cache_insert(s, id, d).len() == CACHE_CAPACITY,
{
    lemma_find_key(s, id);
    let k = find_key(s, id);
    if k >= 0 {
        lemma_insert_replace(s, id, d, k);
    } else {
        let base = if s.len() >= CACHE_CAPACITY { s.drop_first() } else { s };
        lemma_insert_fresh(s, id, d, base);
    }
    let t = cache_insert(s, id, d);
    lemma_find_key(t, id);
    let p = if k >= 0 { k } else { t.len() - 1 };
    assert(t[p] == (id, d));
    let kk = find_key(t, id);
    if kk != p {
        if kk < p {
            assert(t[kk].0 != t[p].0);
        } else {
            assert(t[p].0 != t[kk].0);
        }
    }
}

pub proof fn lemma_insert_replace<V>(s: Seq<(Seq<char>, V)>, id: Seq<char>, d: V, k: int)
    requires
        keys_unique(s),
        0 <= k < s.len(),
        s[k].0 == id,
    ensures
        keys_unique(s.update(k, (id, d))),
        forall|i: int| 0 <= i < s.len() ==> #[trigger] s.update(k, (id, d))[i] == (id, d)
            || exists|j: int| 0 <= j < s.len() && s[j] == s.update(k, (id, d))[i],
{
    let t = s.update(k, (id, d));
    assert forall|i: int, j: int| 0 <= i < j < t.len() implies #[trigger] t[i].0 != #[trigger] t[j].0 by {
        assert(t[i].0 == s[i].0 && t[j].0 == s[j].0);
    }
    assert forall|i: int| 0 <= i < s.len() implies #[trigger] t[i] == (id, d) || exists|j: int|
        0 <= j < s.len() && s[j] == t[i] by {
        if i != k {
            assert(s[i] == t[i]);
        }
    }
}

pub proof fn lemma_insert_fresh<V>(s: Seq<(Seq<char>, V)>, id: Seq<char>, d: V, base: Seq<(Seq<char>, V)>)
    requires
        keys_unique(s),
        forall|i: int| 0 <= i < s.len() ==> #[trigger] s[i].0 != id,
        base == s || (s.len() > 0 && base == s.drop_first()),
    ensures
        keys_unique(base.push((id, d))),
        forall|i: int| 0 <= i < base.len() + 1 ==> #[trigger] base.push((id, d))[i] == (id, d)
            || exists|j: int| 0 <= j < s.len() && s[j] == base.push((id, d))[i],
{
    let t = base.push((id, d));
    let off: int = if base == s { 0 } else { 1 };
    assert forall|i: int| 0 <= i < base.len() implies #[trigger] base[i] == s[i + off] by {}
    assert forall|i: int, j: int| 0 <= i < j < t.len() implies #[trigger] t[i].0 != #[trigger] t[j].0 by {
        assert(t[i] == s[i + off]);
        if j < base.len() {
            assert(t[j] == s[j + off]);
        }
    }
    assert forall|i: int| 0 <= i < t.len() implies #[trigger] t[i] == (id, d) || exists|j: int|
        0 <= j < s.len() && s[j] == t[i] by {
        if i < base.len() {
            assert(t[i] == s[i + off]);
        }
    }
}

pub proof fn lemma_remove_unique<V>(s: Seq<(Seq<char>, V)>, k: int)
    requires
        keys_unique(s),
        0 <= k < s.len(),
    ensures
        keys_unique(s.remove(k)),
{
    let t = s.remove(k);
    assert forall|i: int, j: int| 0 <= i < j < t.len() implies #[trigger] t[i].0 != #[trigger] t[j].0 by {
        let oi = if i < k { i } else { i + 1 };
        let oj = if j < k { j } else { j + 1 };
        assert(t[i] == s[oi] && t[j] == s[oj]);
    }
}

/// What a request for chapters does next.
pub enum ChapterStep {
    /// Answer with these chapters.
    Ready(Vec<Chapter>),
    /// Look the document up in the persistent chapter index.
    LoadIndex,
    /// Parse the source file.
    ParseSource,
}

pub enum StepView {
    Ready(Seq<ChapterView>),
    LoadIndex,
    ParseSource,
}

impl View for ChapterStep {
    type V = StepView;

    open spec fn view(&self) -> StepView {
        match self {
            ChapterStep::Ready(v) => StepView::Ready(chapters_view(v@)),
            ChapterStep::LoadIndex => StepView::LoadIndex,
            ChapterStep::ParseSource => StepView::ParseSource,
        }
    }
}

/// The first step: the chapters of a cached document, else the index.
pub open spec fn memory_step(s: CacheView, id: Seq<char>) -> StepView {
    match lookup(s, id) {
        Some(d) => StepView::Ready(d.chapters),
        None => StepView::LoadIndex,
    }
}

/// The step after the index lookup: its chapters, else a parse.
pub open spec fn index_step(found: Option<Seq<ChapterView>>) -> StepView {
    match found {
        Some(cs) => StepView::Ready(cs),
        None => StepView::ParseSource,
    }
}

/// What a parse writes to the chapter index: the chapters, when there are any.
pub open spec fn index_record(d: DocumentView) -> Option<Seq<ChapterView>> {
    if d.chapters.len() > 0 {
        Some(d.chapters)
    } else {
        None
    }
}

pub open spec fn opt_chapters_view(o: Option<Vec<Chapter>>) -> Option<Seq<ChapterView>> {
    match o {
        Some(v) => Some(chapters_view(v@)),
        None => None,
    }
}

impl DocumentCache {
    /// The first step of a request for the chapters of `document_id`.
    pub fn chapters_step(&self, document_id: &str) -> (r: ChapterStep)
        ensures
            r@ == memory_step(self@, document_id@),
    {
        match self.get(document_id) {
            Some(d) => ChapterStep::Ready(d.chapters),
            None => ChapterStep::LoadIndex,
        }
    }

    /// Stores a freshly parsed document under `document_id`. Returns the
    /// chapters to answer with and what to write to the chapter index.
    pub fn finish_parse(&mut self, document_id: String, document: Document) -> (r: (
        Vec<Chapter>,
        Option<Vec<Chapter>>,
    ))
        requires
            old(self).wf(),
        ensures
            final(self)@ == cache_insert(old(self)@, document_id@, document@),
            final(self).wf(),
            chapters_view(r.0@) == document@.chapters,
            opt_chapters_view(r.1) == index_record(document@),
    {
        let answer = copy_chapters(&document.chapters);
        let record = if document.chapters.len() > 0 {
            Some(copy_chapters(&document.chapters))
        } else {
            None
        };
        self.set(document_id, document);
        (answer, record)
    }
}

/// The step after the persistent index answered with `found`.
pub fn chapters_after_index(found: Option<Vec<Chapter>>) -> (r: ChapterStep)
    ensures
        r@ == index_step(opt_chapters_view(found)),
{
    match found {
        Some(v) => ChapterStep::Ready(v),
        None => ChapterStep::ParseSource,
    }
}

/// A request for the chapters of a document that neither tier holds goes to
/// the index and then to exactly one parse, which fills the memory tier and
/// hands the index its chapters; the next request is then answered from
/// memory, with no parse.
pub proof fn lemma_chapters_cold_then_warm(s: CacheView, id: Seq<char>, d: DocumentView)
    requires
        cache_wf(s),
        lookup(s, id) is None,
    ensures
        memory_step(s, id) == StepView::LoadIndex,
        index_step(None) == StepView::ParseSource,
        lookup(cache_insert(s, id, d), id) == Some(d),
        memory_step(cache_insert(s, id, d), id) == StepView::Ready(d.chapters),
        d.chapters.len() > 0 ==> index_step(index_record(d)) == StepView::Ready(d.chapters),
{
    lemma_insert_wf(s, id, d);
}

} // verus!
