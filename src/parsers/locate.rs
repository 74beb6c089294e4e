//! The span locator: a single left-to-right scan that finds every stretch of
//! text shaped like a citation, before any book name is checked.
//!
//! The grammar, at each start position, in leftmost-first greedy order:
//!
//! ```text
//! book     = ([1-4] space?)? letter+
//! citation = book space* digit+ (':' verses)?
//! verses   = list (';' space* digit+ ':' list)*
//! list     = item (',' space* item)*
//! item     = digit+ (dash digit+)?
//! ```
//!
//! A `letter` is an ASCII letter and a `digit` an ASCII decimal digit; other
//! Unicode letters and decimal digits do not count. A `space` is any
//! character of the Unicode `White_Space` property, and a `dash` is a
//! hyphen-minus, an en dash or an em dash.
use vstd::prelude::*;

use crate::text::{
    digit, dash, is_dash, is_digit, is_letter, is_numeral, is_space, letter, numeral, space,
};

verus! {

/// A class of characters that a maximal run is made of.
#[derive(Clone, Copy, PartialEq, Eq, Debug)]
pub enum CharClass {
    Letter,
    Digit,
    Space,
}

/// Whether `c` is of class `k`.
pub open spec fn in_class(c: char, k: CharClass) -> bool {
    match k {
        CharClass::Letter => is_letter(c),
        CharClass::Digit => is_digit(c),
        CharClass::Space => is_space(c),
    }
}

/// The end of the longest run of class `k` that starts at `i`.
pub open spec fn run_end(s: Seq<char>, i: int, k: CharClass) -> int
    decreases s.len() - i,
{
    if 0 <= i < s.len() && in_class(s[i], k) {
        run_end(s, i + 1, k)
    } else {
        i
    }
}

/// `item` at `i`: digits, then a dash and digits if both are there.
pub open spec fn item_end(s: Seq<char>, i: int) -> Option<int> {
    let d = run_end(s, i, CharClass::Digit);
    if d == i {
        None
    } else if d < s.len() && is_dash(s[d]) && run_end(s, d + 1, CharClass::Digit) > d + 1 {
        Some(run_end(s, d + 1, CharClass::Digit))
    } else {
        Some(d)
    }
}

/// The further `, item` parts of a list, as many as follow `i`.
pub open spec fn list_tail_end(s: Seq<char>, i: int) -> int
    decreases s.len() - i,
{
    if 0 <= i < s.len() && s[i] == ',' {
        match item_end(s, run_end(s, i + 1, CharClass::Space)) {
            Some(e) => if i < e <= s.len() {
                list_tail_end(s, e)
            } else {
                i
            },
            None => i,
        }
    } else {
        i
    }
}

/// `list` at `i`.
pub open spec fn list_end(s: Seq<char>, i: int) -> Option<int> {
    match item_end(s, i) {
        Some(e) => Some(list_tail_end(s, e)),
        None => None,
    }
}

/// The further `; chapter:list` groups, as many as follow `i`.
pub open spec fn group_tail_end(s: Seq<char>, i: int) -> int
    decreases s.len() - i,
{
    if 0 <= i < s.len() && s[i] == ';' {
        let c = run_end(s, i + 1, CharClass::Space);
        let d = run_end(s, c, CharClass::Digit);
        if d > c && d < s.len() && s[d] == ':' {
            match list_end(s, d + 1) {
                Some(e) => if i < e <= s.len() {
                    group_tail_end(s, e)
                } else {
                    i
                },
                None => i,
            }
        } else {
            i
        }
    } else {
        i
    }
}

/// `verses` at `i`.
pub open spec fn verses_end(s: Seq<char>, i: int) -> Option<int> {
    match list_end(s, i) {
        Some(e) => Some(group_tail_end(s, e)),
        None => None,
    }
}

/// Where the letters of `book` start, when a book token starts at `i`.
pub open spec fn letters_start(s: Seq<char>, i: int) -> Option<int> {
    if 0 <= i < s.len() && is_numeral(s[i]) {
        let k = if i + 1 < s.len() && is_space(s[i + 1]) {
            i + 2
        } else {
            i + 1
        };
        if k < s.len() && is_letter(s[k]) {
            Some(k)
        } else {
            None
        }
    } else if 0 <= i < s.len() && is_letter(s[i]) {
        Some(i)
    } else {
        None
    }
}

/// The end of the book token that starts at `i`.
pub open spec fn book_end(s: Seq<char>, i: int) -> Option<int> {
    match letters_start(s, i) {
        Some(k) => Some(run_end(s, k, CharClass::Letter)),
        None => None,
    }
}

/// Where the chapter digits start, after the book token that starts at `i`.
pub open spec fn chapter_start(s: Seq<char>, i: int) -> int {
    run_end(s, book_end(s, i)->0, CharClass::Space)
}

/// Where the chapter digits end.
pub open spec fn chapter_end(s: Seq<char>, i: int) -> int {
    run_end(s, chapter_start(s, i), CharClass::Digit)
}

/// Whether a `:verses` part follows the chapter.
pub open spec fn has_verses(s: Seq<char>, i: int) -> bool {
    let d = chapter_end(s, i);
    d < s.len() && s[d] == ':' && verses_end(s, d + 1) is Some
}

/// The end of the citation that starts at `i`, if one does.
pub open spec fn match_at(s: Seq<char>, i: int) -> Option<int> {
    if book_end(s, i) is None {
        None
    } else if chapter_end(s, i) == chapter_start(s, i) {
        None
    } else if has_verses(s, i) {
        verses_end(s, chapter_end(s, i) + 1)
    } else {
        Some(chapter_end(s, i))
    }
}

/// The spans of the leftmost-first scan from `i` on: at each position the
/// citation there is taken whole and the scan goes on after it.
pub open spec fn spans_from(s: Seq<char>, i: int) -> Seq<(int, int)>
    decreases s.len() - i,
{
    if 0 <= i < s.len() {
        match match_at(s, i) {
            Some(e) => if i < e <= s.len() {
                seq![(i, e)] + spans_from(s, e)
            } else {
                spans_from(s, i + 1)
            },
            None => spans_from(s, i + 1),
        }
    } else {
        Seq::empty()
    }
}

/// The candidate spans of a whole text, in character positions.
pub open spec fn candidate_spans(s: Seq<char>) -> Seq<(int, int)> {
    spans_from(s, 0)
}

/// Spans as pairs of integers.
pub open spec fn span_view(v: Seq<(usize, usize)>) -> Seq<(int, int)> {
    v.map_values(|p: (usize, usize)| (p.0 as int, p.1 as int))
}

pub proof fn lemma_run_end_bounds(s: Seq<char>, i: int, k: CharClass)
    requires
        0 <= i <= s.len(),
    ensures
        i <= run_end(s, i, k) <= s.len(),
        forall|j: int| i <= j < run_end(s, i, k) ==> in_class(#[trigger] s[j], k),
    decreases s.len() - i,
{
    if i < s.len() && in_class(s[i], k) {
        lemma_run_end_bounds(s, i + 1, k);
    }
}

pub proof fn lemma_item_end_bounds(s: Seq<char>, i: int)
    requires
        0 <= i <= s.len(),
    ensures
        item_end(s, i) matches Some(e) ==> i < e <= s.len(),
{
    lemma_run_end_bounds(s, i, CharClass::Digit);
    let d = run_end(s, i, CharClass::Digit);
    if d < s.len() {
        lemma_run_end_bounds(s, d + 1, CharClass::Digit);
    }
}

pub proof fn lemma_list_tail_bounds(s: Seq<char>, i: int)
    requires
        0 <= i <= s.len(),
    ensures
        i <= list_tail_end(s, i) <= s.len(),
    decreases s.len() - i,
{
    if 0 <= i < s.len() && s[i] == ',' {
        lemma_run_end_bounds(s, i + 1, CharClass::Space);
        let c = run_end(s, i + 1, CharClass::Space);
        lemma_item_end_bounds(s, c);
        if let Some(e) = item_end(s, c) {
            if i < e <= s.len() {
                lemma_list_tail_bounds(s, e);
            }
        }
    }
}

pub proof fn lemma_list_end_bounds(s: Seq<char>, i: int)
    requires
        0 <= i <= s.len(),
    ensures
        list_end(s, i) matches Some(e) ==> i < e <= s.len(),
{
    lemma_item_end_bounds(s, i);
    if let Some(e) = item_end(s, i) {
        lemma_list_tail_bounds(s, e);
    }
}

pub proof fn lemma_group_tail_bounds(s: Seq<char>, i: int)
    requires
        0 <= i <= s.len(),
    ensures
        i <= group_tail_end(s, i) <= s.len(),
    decreases s.len() - i,
{
    if 0 <= i < s.len() && s[i] == ';' {
        lemma_run_end_bounds(s, i + 1, CharClass::Space);
        let c = run_end(s, i + 1, CharClass::Space);
        lemma_run_end_bounds(s, c, CharClass::Digit);
        let d = run_end(s, c, CharClass::Digit);
        if d > c && d < s.len() && s[d] == ':' {
            lemma_list_end_bounds(s, d + 1);
            if let Some(e) = list_end(s, d + 1) {
                if i < e <= s.len() {
                    lemma_group_tail_bounds(s, e);
                }
            }
        }
    }
}

pub proof fn lemma_verses_end_bounds(s: Seq<char>, i: int)
    requires
        0 <= i <= s.len(),
    ensures
        verses_end(s, i) matches Some(e) ==> i < e <= s.len(),
{
    lemma_list_end_bounds(s, i);
    if let Some(e) = list_end(s, i) {
        lemma_group_tail_bounds(s, e);
    }
}

/// The parts of a citation at `i` lie in order inside the text.
pub proof fn lemma_match_at_bounds(s: Seq<char>, i: int)
    requires
        0 <= i < s.len(),
        match_at(s, i) is Some,
    ensures
        letters_start(s, i) matches Some(k) && i <= k < book_end(s, i)->0,
        book_end(s, i)->0 <= chapter_start(s, i) < chapter_end(s, i),
        chapter_end(s, i) <= match_at(s, i)->0 <= s.len(),
        has_verses(s, i) ==> chapter_end(s, i) + 1 < match_at(s, i)->0,
        !has_verses(s, i) ==> match_at(s, i)->0 == chapter_end(s, i),
{
    let k = letters_start(s, i)->0;
    lemma_run_end_bounds(s, k, CharClass::Letter);
    let b = book_end(s, i)->0;
    lemma_run_end_bounds(s, b, CharClass::Space);
    let c = chapter_start(s, i);
    lemma_run_end_bounds(s, c, CharClass::Digit);
    let d = chapter_end(s, i);
    if d < s.len() {
        lemma_verses_end_bounds(s, d + 1);
    }
}

/// Spans that lie inside a text of length `len`, are not empty, and come in
/// order without overlapping.
pub open spec fn well_placed(spans: Seq<(int, int)>, len: int) -> bool {
    &&& forall|j: int| 0 <= j < spans.len() ==> 0 <= (#[trigger] spans[j]).0 < spans[j].1 <= len
    &&& forall|j: int, m: int|
        0 <= j < m < spans.len() ==> (#[trigger] spans[j]).1 <= (#[trigger] spans[m]).0
}

/// Every span is a citation of the scan: the citation at its start ends at
/// its end.
pub open spec fn all_matches(s: Seq<char>, spans: Seq<(int, int)>) -> bool {
    forall|j: int| 0 <= j < spans.len() ==> match_at(s, (#[trigger] spans[j]).0) == Some(spans[j].1)
}

/// The spans of the scan from `i` lie in `[i, len]`, in order, and each is
/// the citation that starts where it starts.
pub proof fn lemma_spans_from_ordered(s: Seq<char>, i: int)
    requires
        0 <= i <= s.len(),
    ensures
        well_placed(spans_from(s, i), s.len() as int),
        all_matches(s, spans_from(s, i)),
        forall|j: int| 0 <= j < spans_from(s, i).len() ==> i <= (#[trigger] spans_from(s, i)[j]).0,
    decreases s.len() - i,
{
    if 0 <= i < s.len() {
        let m = match_at(s, i);
        if m is Some && i < m->0 <= s.len() {
            let e = m->0;
            lemma_spans_from_ordered(s, e);
            let rest = spans_from(s, e);
            let all = spans_from(s, i);
            assert(all == seq![(i, e)] + rest);
            assert forall|j: int| 0 <= j < all.len() implies 0 <= (#[trigger] all[j]).0 < all[j].1
                <= s.len() && i <= all[j].0 && match_at(s, all[j].0) == Some(all[j].1) by {
                if j > 0 {
                    assert(all[j] == rest[j - 1]);
                }
            }
            assert forall|j: int, n: int| 0 <= j < n < all.len() implies (#[trigger] all[j]).1
                <= (#[trigger] all[n]).0 by {
                assert(all[n] == rest[n - 1]);
                if j > 0 {
                    assert(all[j] == rest[j - 1]);
                }
            }
        } else {
            lemma_spans_from_ordered(s, i + 1);
            assert(spans_from(s, i) == spans_from(s, i + 1));
        }
    }
}

/// Whether `c` is of class `k`.
pub fn in_class_exec(c: char, k: CharClass) -> (r: bool)
    ensures
        r == in_class(c, k),
{
    match k {
        CharClass::Letter => letter(c),
        CharClass::Digit => digit(c),
        CharClass::Space => space(c),
    }
}

/// The end of the longest run of class `k` from `i`.
pub fn run_end_exec(s: &Vec<char>, i: usize, k: CharClass) -> (r: usize)
    requires
        i <= s.len(),
    ensures
        r as int == run_end(s@, i as int, k),
        i <= r <= s.len(),
{
    let mut j = i;
    while j < s.len() && in_class_exec(s[j], k)
        invariant
            i <= j <= s.len(),
            run_end(s@, j as int, k) == run_end(s@, i as int, k),
        decreases s.len() - j,
    {
        j = j + 1;
    }
    j
}

/// The end of the verse item at `i`, if one starts there.
pub fn item_end_exec(s: &Vec<char>, i: usize) -> (r: Option<usize>)
    requires
        i <= s.len(),
    ensures
        r matches Some(e) ==> item_end(s@, i as int) == Some(e as int),
        r is None ==> item_end(s@, i as int) is None,
{
    let d = run_end_exec(s, i, CharClass::Digit);
    if d == i {
        None
    } else if d < s.len() && dash(s[d]) {
        let e = run_end_exec(s, d + 1, CharClass::Digit);
        if e > d + 1 {
            Some(e)
        } else {
            Some(d)
        }
    } else {
        Some(d)
    }
}

/// The end of the further `, item` parts after `i`.
pub fn list_tail_end_exec(s: &Vec<char>, i: usize) -> (r: usize)
    requires
        i <= s.len(),
    ensures
        r as int == list_tail_end(s@, i as int),
{
    let mut j = i;
    loop
        invariant
            i <= j <= s.len(),
            list_tail_end(s@, j as int) == list_tail_end(s@, i as int),
        decreases s.len() - j,
    {
        if j < s.len() && s[j] == ',' {
            let c = run_end_exec(s, j + 1, CharClass::Space);
            proof {
                lemma_item_end_bounds(s@, c as int);
            }
            match item_end_exec(s, c) {
                Some(e) => {
                    j = e;
                },
                None => {
                    return j;
                },
            }
        } else {
            return j;
        }
    }
}

/// The end of the verse list at `i`, if one starts there.
pub fn list_end_exec(s: &Vec<char>, i: usize) -> (r: Option<usize>)
    requires
        i <= s.len(),
    ensures
        r matches Some(e) ==> list_end(s@, i as int) == Some(e as int),
        r is None ==> list_end(s@, i as int) is None,
{
    proof {
        lemma_item_end_bounds(s@, i as int);
    }
    match item_end_exec(s, i) {
        Some(e) => Some(list_tail_end_exec(s, e)),
        None => None,
    }
}

/// The end of the further `; chapter:list` groups after `i`.
pub fn group_tail_end_exec(s: &Vec<char>, i: usize) -> (r: usize)
    requires
        i <= s.len(),
    ensures
        r as int == group_tail_end(s@, i as int),
{
    let mut j = i;
    loop
        invariant
            i <= j <= s.len(),
            group_tail_end(s@, j as int) == group_tail_end(s@, i as int),
        decreases s.len() - j,
    {
        if j < s.len() && s[j] == ';' {
            let c = run_end_exec(s, j + 1, CharClass::Space);
            let d = run_end_exec(s, c, CharClass::Digit);
            if d > c && d < s.len() && s[d] == ':' {
                proof {
                    lemma_list_end_bounds(s@, d + 1);
                }
                match list_end_exec(s, d + 1) {
                    Some(e) => {
                        j = e;
                    },
                    None => {
                        return j;
                    },
                }
            } else {
                return j;
            }
        } else {
            return j;
        }
    }
}

/// The end of the verses at `i`, if they start there.
pub fn verses_end_exec(s: &Vec<char>, i: usize) -> (r: Option<usize>)
    requires
        i <= s.len(),
    ensures
        r matches Some(e) ==> verses_end(s@, i as int) == Some(e as int),
        r is None ==> verses_end(s@, i as int) is None,
{
    proof {
        lemma_list_end_bounds(s@, i as int);
    }
    match list_end_exec(s, i) {
        Some(e) => Some(group_tail_end_exec(s, e)),
        None => None,
    }
}

/// Where the letters of a book token that starts at `i` start.
pub fn letters_start_exec(s: &Vec<char>, i: usize) -> (r: Option<usize>)
    requires
        i < s.len(),
    ensures
        r matches Some(k) ==> letters_start(s@, i as int) == Some(k as int),
        r is None ==> letters_start(s@, i as int) is None,
{
    if numeral(s[i]) {
        let k = if i + 1 < s.len() && space(s[i + 1]) {
            i + 2
        } else {
            i + 1
        };
        if k < s.len() && letter(s[k]) {
            Some(k)
        } else {
            None
        }
    } else if letter(s[i]) {
        Some(i)
    } else {
        None
    }
}

/// The parts of the citation that starts at `i`: where its letters start,
/// where the book token ends, where the chapter starts and ends, and where
/// the whole citation ends.
pub struct Parts {
    pub letters: usize,
    pub book_end: usize,
    pub chapter_start: usize,
    pub chapter_end: usize,
    pub end: usize,
}

pub open spec fn parts_of(s: Seq<char>, i: int, p: Parts) -> bool {
    &&& letters_start(s, i) == Some(p.letters as int)
    &&& book_end(s, i) == Some(p.book_end as int)
    &&& chapter_start(s, i) == p.chapter_start as int
    &&& chapter_end(s, i) == p.chapter_end as int
    &&& match_at(s, i) == Some(p.end as int)
}

/// The citation that starts at `i`, if one does.
pub fn match_at_exec(s: &Vec<char>, i: usize) -> (r: Option<Parts>)
    requires
        i < s.len(),
    ensures
        r matches Some(p) ==> parts_of(s@, i as int, p),
        r is None ==> match_at(s@, i as int) is None,
{
    let k = match letters_start_exec(s, i) {
        Some(k) => k,
        None => {
            return None;
        },
    };
    let b = run_end_exec(s, k, CharClass::Letter);
    let c = run_end_exec(s, b, CharClass::Space);
    let d = run_end_exec(s, c, CharClass::Digit);
    if d == c {
        return None;
    }
    let mut end = d;
    if d < s.len() && s[d] == ':' {
        match verses_end_exec(s, d + 1) {
            Some(v) => {
                end = v;
            },
            None => {},
        }
    }
    Some(Parts { letters: k, book_end: b, chapter_start: c, chapter_end: d, end })
}

/// The first candidate at or after `from`, with its parts.
pub fn next_match(s: &Vec<char>, from: usize) -> (r: Option<(usize, Parts)>)
    requires
        from <= s.len(),
    ensures
        r matches Some(m) ==> {
            &&& spans_from(s@, from as int).len() > 0
            &&& spans_from(s@, from as int)[0] == (m.0 as int, m.1.end as int)
            &&& spans_from(s@, from as int) == seq![(m.0 as int, m.1.end as int)] + spans_from(
                s@,
                m.1.end as int,
            )
            &&& parts_of(s@, m.0 as int, m.1)
            &&& from <= m.0 < m.1.end <= s.len()
        },
        r is None ==> spans_from(s@, from as int).len() == 0,
{
    let mut i = from;
    while i < s.len()
        invariant
            from <= i <= s.len(),
            spans_from(s@, i as int) == spans_from(s@, from as int),
        decreases s.len() - i,
    {
        match match_at_exec(s, i) {
            Some(p) => {
                proof {
                    lemma_match_at_bounds(s@, i as int);
                }
                return Some((i, p));
            },
            None => {},
        }
        i = i + 1;
    }
    None
}

/// Every candidate span of the text, in order, as character positions.
pub fn locate(s: &Vec<char>) -> (r: Vec<(usize, usize)>)
    ensures
        span_view(r@) == candidate_spans(s@),
{
    let mut out: Vec<(usize, usize)> = Vec::new();
    let mut pos: usize = 0;
    loop
        invariant
            pos <= s.len(),
            span_view(out@) + spans_from(s@, pos as int) == candidate_spans(s@),
        decreases s.len() - pos,
    {
        match next_match(s, pos) {
            Some(m) => {
                let ghost before = out@;
                out.push((m.0, m.1.end));
                proof {
                    assert(span_view(out@) =~= span_view(before).push((m.0 as int, m.1.end as int)));
                    assert(span_view(out@) + spans_from(s@, m.1.end as int) =~= span_view(before)
                        + spans_from(s@, pos as int));
                }
                pos = m.1.end;
            },
            None => {
                proof {
                    assert(span_view(out@) =~= span_view(out@) + spans_from(s@, pos as int));
                }
                return out;
            },
        }
    }
}

} // verus!
