//! Choosing a parser from a file's extension, and the reader's errors.
use vstd::prelude::*;
use vstd::string::StringExecFns;
use crate::model::Document;
use crate::text::chars_of;
use crate::formats::append_range;

verus! {

/// Turns the file at a path into a document; one implementation per format.
pub trait DocumentParser {
    fn parse(file_path: &str) -> Result<Document, ReaderError>;
}

/// The formats the reader opens.
#[derive(Clone, Copy, Debug, PartialEq, Eq, Structural)]
pub enum DocumentFormat {
    Epub,
    Pdf,
    Txt,
}

/// What can go wrong when a document is opened or looked up.
#[derive(Clone, Debug)]
pub enum ReaderError {
    /// The source file is missing, unreadable or structurally invalid.
    OpenError(String),
    /// A plain-text file could not be read as text.
    ReadError(String),
    /// The extension, held here, is none of `epub`, `pdf` and `txt`.
    UnsupportedFormat(String),
    /// No stored document has the identifier or path held here.
    DocumentNotFound(String),
}

/// The prefix of the message of each kind of error.
pub open spec fn message_head(e: ReaderError) -> Seq<char> {
    match e {
        ReaderError::OpenError(_) => "Failed to open document: "@,
        ReaderError::ReadError(_) => "Failed to read text file: "@,
        ReaderError::UnsupportedFormat(_) => "Unsupported file format: "@,
        ReaderError::DocumentNotFound(_) => "Document not found: "@,
    }
}

/// The detail that an error carries.
pub open spec fn message_detail(e: ReaderError) -> Seq<char> {
    match e {
        ReaderError::OpenError(m) => m@,
        ReaderError::ReadError(m) => m@,
        ReaderError::UnsupportedFormat(x) => x@,
        ReaderError::DocumentNotFound(d) => d@,
    }
}

impl ReaderError {
    /// A human-readable description of the error.
    pub fn message(&self) -> (r: String)
        ensures
            r@ == message_head(*self) + message_detail(*self),
    {
        let (head, detail) = match self {
            ReaderError::OpenError(m) => (String::from_str("Failed to open document: "), m),
            ReaderError::ReadError(m) => (String::from_str("Failed to read text file: "), m),
            ReaderError::UnsupportedFormat(e) => (String::from_str("Unsupported file format: "), e),
            ReaderError::DocumentNotFound(d) => (String::from_str("Document not found: "), d),
        };
        let mut r = head;
        r.append(detail.as_str());
        r
    }
}

/// The end of the file name in `p[..end]`: trailing separators left out.
pub open spec fn name_end(p: Seq<char>, end: int) -> int
    decreases end,
{
    if 0 < end <= p.len() && p[end - 1] == '/' {
        name_end(p, end - 1)
    } else {
        end
    }
}

/// The start of the last component of `p[..end]`.
pub open spec fn name_start(p: Seq<char>, end: int) -> int
    decreases end,
{
    if 0 < end <= p.len() && p[end - 1] != '/' {
        name_start(p, end - 1)
    } else {
        end
    }
}

/// The position of the last `.` in `p[start..end]`, or -1.
pub open spec fn last_dot(p: Seq<char>, start: int, end: int) -> int
    decreases end - start,
{
    if end <= start || end > p.len() {
        -1
    } else if p[end - 1] == '.' {
        end - 1
    } else {
        last_dot(p, start, end - 1)
    }
}

/// The extension of the file that `p` names: what follows the last `.` of
/// the file name, unless that `.` starts the name or the name is `..`.
pub open spec fn extension(p: Seq<char>) -> Option<Seq<char>> {
    let e = name_end(p, p.len() as int);
    let s = name_start(p, e);
    let k = last_dot(p, s, e);
    if p.subrange(s, e) == seq!['.', '.'] || k <= s {
        None
    } else {
        Some(p.subrange(k + 1, e))
    }
}

/// `a` spells `lower` with each letter in either case (`upper` gives the
/// upper-case letters).
pub open spec fn fold_eq(a: Seq<char>, lower: Seq<char>, upper: Seq<char>) -> bool {
    a.len() == lower.len() && forall|i: int| 0 <= i < a.len() ==> a[i] == lower[i] || a[i] == upper[i]
}

/// The format that an extension selects, compared without regard to case.
pub open spec fn format_of_extension(e: Seq<char>) -> Option<DocumentFormat> {
    if fold_eq(e, seq!['e', 'p', 'u', 'b'], seq!['E', 'P', 'U', 'B']) {
        Some(DocumentFormat::Epub)
    } else if fold_eq(e, seq!['p', 'd', 'f'], seq!['P', 'D', 'F']) {
        Some(DocumentFormat::Pdf)
    } else if fold_eq(e, seq!['t', 'x', 't'], seq!['T', 'X', 'T']) {
        Some(DocumentFormat::Txt)
    } else {
        None
    }
}

/// The format of the file at path `p`.
pub open spec fn format_of(p: Seq<char>) -> Option<DocumentFormat> {
    match extension(p) {
        Some(e) => format_of_extension(e),
        None => None,
    }
}

fn fold_eq_exec(v: &Vec<char>, lo: usize, hi: usize, lower: &Vec<char>, upper: &Vec<char>) -> (r: bool)
    requires
        lo <= hi <= v.len(),
        lower.len() == upper.len(),
    ensures
        r == fold_eq(v@.subrange(lo as int, hi as int), lower@, upper@),
{
    if hi - lo != lower.len() {
        return false;
    }
    let mut i: usize = 0;
    while i < lower.len()
        invariant
            hi - lo == lower.len() == upper.len(),
            lo <= hi <= v.len(),
            i <= lower.len(),
            forall|j: int| 0 <= j < i ==> v@[lo + j] == lower@[j] || v@[lo + j] == upper@[j],
        decreases lower.len() - i,
    {
        if v[lo + i] != lower[i] && v[lo + i] != upper[i] {
            assert(v@.subrange(lo as int, hi as int)[i as int] == v@[lo + i]);
            return false;
        }
        i = i + 1;
    }
    assert forall|j: int| 0 <= j < hi - lo implies v@.subrange(lo as int, hi as int)[j] == lower@[j]
        || v@.subrange(lo as int, hi as int)[j] == upper@[j] by {
        assert(v@.subrange(lo as int, hi as int)[j] == v@[lo + j]);
    }
    true
}

/// The bounds of the extension of the file that `v` names.
fn extension_range(v: &Vec<char>) -> (r: Option<(usize, usize)>)
    ensures
        r matches Some((a, b)) ==> a <= b <= v.len() && extension(v@) == Some(v@.subrange(a as int, b as int)),
        r is None ==> extension(v@) is None,
{
    let mut e = v.len();
    while e > 0 && v[e - 1] == '/'
        invariant
            e <= v.len(),
            name_end(v@, v.len() as int) == name_end(v@, e as int),
        decreases e,
    {
        e = e - 1;
    }
    let mut s = e;
    while s > 0 && v[s - 1] != '/'
        invariant
            s <= e <= v.len(),
            name_start(v@, e as int) == name_start(v@, s as int),
        decreases s,
    {
        s = s - 1;
    }
    if e - s == 2 && v[s] == '.' && v[s + 1] == '.' {
        assert(v@.subrange(s as int, e as int) =~= seq!['.', '.']);
        return None;
    }
    assert(v@.subrange(s as int, e as int) != seq!['.', '.']) by {
        if v@.subrange(s as int, e as int) == seq!['.', '.'] {
            assert(v@.subrange(s as int, e as int).len() == 2);
            assert(v@.subrange(s as int, e as int)[0] == v@[s as int]);
            assert(v@.subrange(s as int, e as int)[1] == v@[s + 1]);
        }
    }
    let mut k = e;
    while k > s && v[k - 1] != '.'
        invariant
            s <= k <= e <= v.len(),
            last_dot(v@, s as int, e as int) == last_dot(v@, s as int, k as int),
        decreases k,
    {
        k = k - 1;
    }
    if k <= s + 1 {
        None
    } else {
        Some((k, e))
    }
}

/// The extension of the file that `path` names, if it has one.
pub fn file_extension(path: &str) -> (r: Option<String>)
    ensures
        r matches Some(x) ==> extension(path@) == Some(x@),
        r is None ==> extension(path@) is None,
{
    let v = chars_of(path);
    match extension_range(&v) {
        Some((a, b)) => {
            let mut x = String::new();
            append_range(&mut x, &v, a, b);
            assert(x@ =~= v@.subrange(a as int, b as int));
            Some(x)
        },
        None => None,
    }
}

/// Selects the parser for the file at `path` by its extension, compared
/// without regard to case; any other extension, or none, is unsupported.
pub fn detect_format(path: &str) -> (r: Result<DocumentFormat, ReaderError>)
    ensures
        format_of(path@) matches Some(f) ==> r == Ok::<DocumentFormat, ReaderError>(f),
        format_of(path@) is None ==> (r matches Err(ReaderError::UnsupportedFormat(x)) && x@ == match extension(path@) {
            Some(e) => e,
            None => Seq::<char>::empty(),
        }),
{
    let v = chars_of(path);
    let (a, b) = match extension_range(&v) {
        Some(r) => r,
        None => {
            let none = String::new();
            return Err(ReaderError::UnsupportedFormat(none));
        },
    };
    let epub_lo = vec!['e', 'p', 'u', 'b'];
    let epub_up = vec!['E', 'P', 'U', 'B'];
    let pdf_lo = vec!['p', 'd', 'f'];
    let pdf_up = vec!['P', 'D', 'F'];
    let txt_lo = vec!['t', 'x', 't'];
    let txt_up = vec!['T', 'X', 'T'];
    assert(epub_lo@ =~= seq!['e', 'p', 'u', 'b'] && epub_up@ =~= seq!['E', 'P', 'U', 'B']);
    assert(pdf_lo@ =~= seq!['p', 'd', 'f'] && pdf_up@ =~= seq!['P', 'D', 'F']);
    assert(txt_lo@ =~= seq!['t', 'x', 't'] && txt_up@ =~= seq!['T', 'X', 'T']);
    if fold_eq_exec(&v, a, b, &epub_lo, &epub_up) {
        Ok(DocumentFormat::Epub)
    } else if fold_eq_exec(&v, a, b, &pdf_lo, &pdf_up) {
        Ok(DocumentFormat::Pdf)
    } else if fold_eq_exec(&v, a, b, &txt_lo, &txt_up) {
        Ok(DocumentFormat::Txt)
    } else {
        let mut x = String::new();
        append_range(&mut x, &v, a, b);
        assert(x@ =~= v@.subrange(a as int, b as int));
        Err(ReaderError::UnsupportedFormat(x))
    }
}

} // verus!
