//! Chapter titles: the first level-one or level-two heading of a fragment,
//! or a numbered fallback.
use vstd::prelude::*;
use vstd::string::StringExecFns;
use crate::markup::{strip_markup, strip_range};
use crate::text::{chars_of, push_char};

verus! {

/// `pat` occurs in `s` starting at `i`.
pub open spec fn matches_at(s: Seq<char>, pat: Seq<char>, i: int) -> bool {
    0 <= i && i + pat.len() <= s.len() && s.subrange(i, i + pat.len()) == pat
}

/// The first position at or after `from` where `pat` occurs in `s`.
pub open spec fn find_from(s: Seq<char>, pat: Seq<char>, from: int) -> Option<int>
    decreases s.len() + 1 - from,
{
    if from < 0 || from + pat.len() > s.len() {
        None
    } else if matches_at(s, pat, from) {
        Some(from)
    } else {
        find_from(s, pat, from + 1)
    }
}

pub open spec fn digit_char(d: nat) -> char {
    seq!['0', '1', '2', '3', '4', '5', '6', '7', '8', '9'][d as int]
}

/// The decimal notation of `n`, without leading zeros.
pub open spec fn decimal(n: nat) -> Seq<char>
    decreases n,
{
    if n < 10 {
        seq![digit_char(n)]
    } else {
        decimal(n / 10).push(digit_char(n % 10))
    }
}

pub open spec fn heading_open(d: char) -> Seq<char> {
    seq!['<', 'h', d]
}

pub open spec fn heading_close(d: char) -> Seq<char> {
    seq!['<', '/', 'h', d, '>']
}

/// The plain text of the first heading of level `d`: from the first `<hd`,
/// past the next `>`, up to the next `</hd>`.
pub open spec fn heading_title(s: Seq<char>, d: char) -> Option<Seq<char>> {
    match find_from(s, heading_open(d), 0) {
        None => None,
        Some(t) => match find_from(s, seq!['>'], t) {
            None => None,
            Some(c) => match find_from(s, heading_close(d), c + 1) {
                None => None,
                Some(e) => Some(strip_markup(s.subrange(c + 1, e))),
            },
        },
    }
}

pub open spec fn chapter_word() -> Seq<char> {
    seq!['C', 'h', 'a', 'p', 't', 'e', 'r', ' ']
}

/// The title of chapter number `n` whose markup is `s`.
pub open spec fn chapter_title(s: Seq<char>, n: nat) -> Seq<char> {
    match heading_title(s, '1') {
        Some(t) => t,
        None => match heading_title(s, '2') {
            Some(t) => t,
            None => chapter_word() + decimal(n),
        },
    }
}

fn matches_at_exec(v: &Vec<char>, pat: &Vec<char>, i: usize) -> (r: bool)
    requires
        i <= v.len(),
    ensures
        r == matches_at(v@, pat@, i as int),
{
    if pat.len() > v.len() - i {
        return false;
    }
    let mut k: usize = 0;
    while k < pat.len()
        invariant
            i + pat.len() <= v.len(),
            k <= pat.len(),
            forall|j: int| 0 <= j < k ==> v@[i + j] == pat@[j],
        decreases pat.len() - k,
    {
        if v[i + k] != pat[k] {
            assert(v@.subrange(i as int, i + pat.len())[k as int] != pat@[k as int]);
            return false;
        }
        k = k + 1;
    }
    assert(v@.subrange(i as int, i + pat.len()) =~= pat@);
    true
}

/// The first position at or after `from` where `pat` occurs in `v`.
pub fn find_chars(v: &Vec<char>, pat: &Vec<char>, from: usize) -> (r: Option<usize>)
    requires
        from <= v.len(),
    ensures
        r matches Some(i) ==> find_from(v@, pat@, from as int) == Some(i as int) && from <= i
            && i + pat@.len() <= v@.len(),
        r is None ==> find_from(v@, pat@, from as int) is None,
{
    let mut i = from;
    while pat.len() <= v.len() - i
        invariant
            from <= i <= v.len(),
            find_from(v@, pat@, from as int) == find_from(v@, pat@, i as int),
        decreases v.len() - i,
    {
        proof {
            if pat.len() == 0 {
                assert(v@.subrange(i as int, i as int) =~= pat@);
            }
        }
        if matches_at_exec(v, pat, i) {
            return Some(i);
        }
        i = i + 1;
    }
    None
}

fn digit_exec(d: usize) -> (c: char)
    requires
        d < 10,
    ensures
        c == digit_char(d as nat),
{
    if d == 0 { '0' }
    else if d == 1 { '1' }
    else if d == 2 { '2' }
    else if d == 3 { '3' }
    else if d == 4 { '4' }
    else if d == 5 { '5' }
    else if d == 6 { '6' }
    else if d == 7 { '7' }
    else if d == 8 { '8' }
    else { '9' }
}

/// Appends the decimal notation of `n`.
pub fn push_decimal(s: &mut String, n: usize)
    ensures
        final(s)@ == old(s)@ + decimal(n as nat),
    decreases n,
{
    if n >= 10 {
        push_decimal(s, n / 10);
    }
    push_char(s, digit_exec(n % 10));
    proof {
        if n < 10 {
            assert(n % 10 == n);
        }
    }
    assert(final(s)@ =~= old(s)@ + decimal(n as nat));
}

fn heading_text(v: &Vec<char>, d: char) -> (r: Option<String>)
    ensures
        r matches Some(t) ==> heading_title(v@, d) == Some(t@),
        r is None ==> heading_title(v@, d) is None,
{
    let open = vec!['<', 'h', d];
    assert(open@ =~= heading_open(d));
    let t = match find_chars(v, &open, 0) {
        Some(t) => t,
        None => return None,
    };
    let gt = vec!['>'];
    assert(gt@ =~= seq!['>']);
    let c = match find_chars(v, &gt, t) {
        Some(c) => c,
        None => return None,
    };
    let close = vec!['<', '/', 'h', d, '>'];
    assert(close@ =~= heading_close(d));
    let e = match find_chars(v, &close, c + 1) {
        Some(e) => e,
        None => return None,
    };
    Some(strip_range(v, c + 1, e))
}

/// The title of chapter `chapter_number` whose markup is `html`: the plain
/// text of its first `<h1>` heading, else of its first `<h2>` heading, else
/// `"Chapter {chapter_number}"`.
pub fn extract_chapter_title(html: &str, chapter_number: usize) -> (r: String)
    ensures
        r@ == chapter_title(html@, chapter_number as nat),
{
    let v = chars_of(html);
    if let Some(t) = heading_text(&v, '1') {
        return t;
    }
    if let Some(t) = heading_text(&v, '2') {
        return t;
    }
    let mut r = String::from_str("Chapter ");
    proof {
        reveal_strlit("Chapter ");
        assert(r@ =~= chapter_word());
    }
    push_decimal(&mut r, chapter_number);
    r
}

} // verus!
