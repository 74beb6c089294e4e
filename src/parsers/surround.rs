//! The text annotator: wraps each citation of a text in markup, turns each
//! into a link, or lists them.
//!
//! Output is built in one pass from left to right, copying the text between
//! citations and putting the markup around each, so no position moves while
//! it is still needed.
use vstd::prelude::*;

use crate::locales::en_us::{range_template_of, single_template_of, Site};
use crate::locales::{BibleError, ErrorView};
use crate::parsers::locate::{
    all_matches, candidate_spans, lemma_spans_from_ordered, locate, match_at, match_at_exec,
    span_view, well_placed,
};
use crate::parsers::scripture::{is_citation, is_citation_exec, ref_at, ref_at_exec};
use crate::text::{byte_pos, byte_positions, chars_of, lemma_byte_pos_injective};
use crate::url::{text_view, url_spec, Url};

verus! {

/// The citations among the first `n` candidate spans `c`, in order.
pub open spec fn citations_upto(s: Seq<char>, c: Seq<(int, int)>, n: int) -> Seq<(int, int)>
    decreases n,
{
    if n <= 0 {
        Seq::empty()
    } else if is_citation(s, c[n - 1]) {
        citations_upto(s, c, n - 1).push(c[n - 1])
    } else {
        citations_upto(s, c, n - 1)
    }
}

/// The candidate spans of `s` whose book token names a book.
pub open spec fn citation_spans(s: Seq<char>) -> Seq<(int, int)> {
    citations_upto(s, candidate_spans(s), candidate_spans(s).len() as int)
}

/// Where the text after the first `n` spans starts.
pub open spec fn gap_start(spans: Seq<(int, int)>, n: int) -> int {
    if n <= 0 {
        0
    } else {
        spans[n - 1].1
    }
}

/// The text up to the end of the `n`-th span, each of the first `n` spans put
/// between `pre` and `post`.
pub open spec fn wrap_upto(
    s: Seq<char>,
    spans: Seq<(int, int)>,
    pre: Seq<char>,
    post: Seq<char>,
    n: int,
) -> Seq<char>
    decreases n,
{
    if n <= 0 {
        Seq::empty()
    } else {
        wrap_upto(s, spans, pre, post, n - 1) + s.subrange(gap_start(spans, n - 1), spans[n - 1].0)
            + pre + s.subrange(spans[n - 1].0, spans[n - 1].1) + post
    }
}

/// The whole text with each span put between `pre` and `post`.
pub open spec fn wrap(s: Seq<char>, spans: Seq<(int, int)>, pre: Seq<char>, post: Seq<char>) -> Seq<
    char,
> {
    wrap_upto(s, spans, pre, post, spans.len() as int) + s.subrange(
        gap_start(spans, spans.len() as int),
        s.len() as int,
    )
}

/// The text with each citation put between `pre` and `post`.
pub open spec fn surround_spec(s: Seq<char>, pre: Seq<char>, post: Seq<char>) -> Seq<char> {
    wrap(s, citation_spans(s), pre, post)
}

/// The text of each span.
pub open spec fn texts_of(s: Seq<char>, spans: Seq<(int, int)>) -> Seq<Seq<char>> {
    Seq::new(spans.len(), |k: int| s.subrange(spans[k].0, spans[k].1))
}

/// The citations of `s`, as written, left to right.
pub open spec fn scriptures_spec(s: Seq<char>) -> Seq<Seq<char>> {
    texts_of(s, citation_spans(s))
}

/// A list of texts as character sequences.
pub open spec fn strings_view(v: Seq<String>) -> Seq<Seq<char>> {
    Seq::new(v.len(), |k: int| v[k]@)
}

/// A citation turned into a Markdown link to `u`.
pub open spec fn link_piece(s: Seq<char>, sp: (int, int), u: Seq<char>) -> Seq<char> {
    "["@ + s.subrange(sp.0, sp.1) + "]("@ + u + ")"@
}

/// The text up to the end of the `n`-th span with each of the first `n`
/// spans turned into a link; the error of the last span whose link fails.
pub open spec fn link_upto(
    s: Seq<char>,
    spans: Seq<(int, int)>,
    single: Seq<char>,
    range: Seq<char>,
    n: int,
) -> Result<Seq<char>, ErrorView>
    decreases n,
{
    if n <= 0 {
        Ok(Seq::empty())
    } else {
        match url_spec(single, range, ref_at(s, spans[n - 1])) {
            Err(e) => Err(e),
            Ok(u) => match link_upto(s, spans, single, range, n - 1) {
                Err(e) => Err(e),
                Ok(o) => Ok(
                    o + s.subrange(gap_start(spans, n - 1), spans[n - 1].0) + link_piece(
                        s,
                        spans[n - 1],
                        u,
                    ),
                ),
            },
        }
    }
}

/// The text with each candidate citation turned into a link by the two
/// templates, or the error of the last candidate whose link fails: one whose
/// book token names no book, or whose verses no template can show.
pub open spec fn link_spec(s: Seq<char>, single: Seq<char>, range: Seq<char>) -> Result<
    Seq<char>,
    ErrorView,
> {
    let c = candidate_spans(s);
    match link_upto(s, c, single, range, c.len() as int) {
        Err(e) => Err(e),
        Ok(o) => Ok(o + s.subrange(gap_start(c, c.len() as int), s.len() as int)),
    }
}

/// Filtering candidates keeps them in place and in order, and keeps only
/// citations.
pub proof fn lemma_citations_upto(s: Seq<char>, c: Seq<(int, int)>, n: int)
    requires
        0 <= n <= c.len(),
        well_placed(c, s.len() as int),
        all_matches(s, c),
    ensures
        well_placed(citations_upto(s, c, n), s.len() as int),
        all_matches(s, citations_upto(s, c, n)),
        forall|j: int|
            0 <= j < citations_upto(s, c, n).len() ==> is_citation(
                s,
                #[trigger] citations_upto(s, c, n)[j],
            ) && citations_upto(s, c, n)[j].1 <= gap_start(c, n),
    decreases n,
{
    if n > 0 {
        lemma_citations_upto(s, c, n - 1);
        let prev = citations_upto(s, c, n - 1);
        let cur = citations_upto(s, c, n);
        if n >= 2 {
            assert(c[n - 2].1 <= c[n - 1].0);
        }
        if is_citation(s, c[n - 1]) {
            assert forall|j: int| 0 <= j < cur.len() implies is_citation(s, #[trigger] cur[j])
                && cur[j].1 <= gap_start(c, n) && 0 <= cur[j].0 < cur[j].1 <= s.len() && match_at(
                s,
                cur[j].0,
            ) == Some(cur[j].1) by {
                if j < prev.len() {
                    assert(cur[j] == prev[j]);
                }
            }
            assert forall|j: int, m: int| 0 <= j < m < cur.len() implies (#[trigger] cur[j]).1 <= (
            #[trigger] cur[m]).0 by {
                assert(cur[j] == prev[j]);
                if m < prev.len() {
                    assert(cur[m] == prev[m]);
                }
            }
        }
    }
}

/// The citation spans of a text lie in order inside it, and each is a
/// citation of the scan.
pub proof fn lemma_citation_spans(s: Seq<char>)
    ensures
        well_placed(citation_spans(s), s.len() as int),
        all_matches(s, citation_spans(s)),
        forall|j: int|
            0 <= j < citation_spans(s).len() ==> is_citation(s, #[trigger] citation_spans(s)[j]),
{
    lemma_spans_from_ordered(s, 0);
    lemma_citations_upto(s, candidate_spans(s), candidate_spans(s).len() as int);
}

/// The spans among `c` that are citations.
pub fn citations_exec(text: &str, cs: &Vec<char>, c: &Vec<(usize, usize)>) -> (r: Vec<(usize, usize)>)
    requires
        cs@ == text@,
        well_placed(span_view(c@), text@.len() as int),
        all_matches(text@, span_view(c@)),
    ensures
        span_view(r@) == citations_upto(text@, span_view(c@), c@.len() as int),
{
    let ghost cv = span_view(c@);
    let mut out: Vec<(usize, usize)> = Vec::new();
    let mut k: usize = 0;
    while k < c.len()
        invariant
            cs@ == text@,
            cv == span_view(c@),
            well_placed(cv, text@.len() as int),
            all_matches(text@, cv),
            k <= c.len(),
            span_view(out@) == citations_upto(text@, cv, k as int),
        decreases c.len() - k,
    {
        let sp = c[k];
        assert(cv[k as int] == (sp.0 as int, sp.1 as int));
        let m = match_at_exec(cs, sp.0);
        let p = match m {
            Some(p) => p,
            None => {
                proof {
                    assert(false);
                }
                return out;
            },
        };
        let ghost before = out@;
        if is_citation_exec(cs, text, sp.0, &p) {
            out.push(sp);
            proof {
                assert(span_view(out@) =~= span_view(before).push(cv[k as int]));
            }
        }
        k = k + 1;
    }
    out
}

/// `text` with each of the spans put between `pre` and `post`.
pub fn wrap_exec(text: &str, spans: &Vec<(usize, usize)>, pre: &str, post: &str) -> (r: String)
    requires
        well_placed(span_view(spans@), text@.len() as int),
    ensures
        r@ == wrap(text@, span_view(spans@), pre@, post@),
{
    let ghost sv = span_view(spans@);
    let n = text.unicode_len();
    let mut out = String::new();
    let mut last: usize = 0;
    let mut k: usize = 0;
    while k < spans.len()
        invariant
            sv == span_view(spans@),
            well_placed(sv, text@.len() as int),
            n == text@.len(),
            k <= spans.len(),
            last as int == gap_start(sv, k as int),
            last <= n,
            k < spans.len() ==> last <= sv[k as int].0,
            out@ == wrap_upto(text@, sv, pre@, post@, k as int),
        decreases spans.len() - k,
    {
        let sp = spans[k];
        assert(sv[k as int] == (sp.0 as int, sp.1 as int));
        out.append(text.substring_char(last, sp.0));
        out.append(pre);
        out.append(text.substring_char(sp.0, sp.1));
        out.append(post);
        proof {
            if k + 1 < spans.len() {
                assert(sv[k as int].1 <= sv[k + 1].0);
            }
            assert(out@ =~= wrap_upto(text@, sv, pre@, post@, k + 1));
        }
        last = sp.1;
        k = k + 1;
    }
    out.append(text.substring_char(last, n));
    out
}

/// The text of each span.
pub fn texts_exec(text: &str, spans: &Vec<(usize, usize)>) -> (r: Vec<String>)
    requires
        well_placed(span_view(spans@), text@.len() as int),
    ensures
        strings_view(r@) == texts_of(text@, span_view(spans@)),
{
    let ghost sv = span_view(spans@);
    let mut out: Vec<String> = Vec::new();
    let mut k: usize = 0;
    while k < spans.len()
        invariant
            sv == span_view(spans@),
            well_placed(sv, text@.len() as int),
            k <= spans.len(),
            out@.len() == k,
            strings_view(out@) == texts_of(text@, sv).take(k as int),
        decreases spans.len() - k,
    {
        let sp = spans[k];
        assert(sv[k as int] == (sp.0 as int, sp.1 as int));
        let piece = text.substring_char(sp.0, sp.1).to_owned();
        let ghost before = out@;
        out.push(piece);
        proof {
            assert forall|j: int| 0 <= j < k + 1 implies #[trigger] strings_view(out@)[j]
                == texts_of(text@, sv).take(k + 1)[j] by {
                if j < k {
                    assert(out@[j] == before[j]);
                    assert(strings_view(before)[j] == texts_of(text@, sv).take(k as int)[j]);
                }
            }
            assert(strings_view(out@) =~= texts_of(text@, sv).take(k + 1));
        }
        k = k + 1;
    }
    proof {
        assert(texts_of(text@, sv).take(k as int) =~= texts_of(text@, sv));
    }
    out
}

/// `text` with each of the spans turned into a link to `site`.
pub fn link_exec(text: &str, cs: &Vec<char>, spans: &Vec<(usize, usize)>, site: &Site) -> (r: Result<
    String,
    BibleError,
>)
    requires
        cs@ == text@,
        well_placed(span_view(spans@), text@.len() as int),
        all_matches(text@, span_view(spans@)),
    ensures
        text_view(r) == match link_upto(
            text@,
            span_view(spans@),
            single_template_of(*site),
            range_template_of(*site),
            spans@.len() as int,
        ) {
            Err(e) => Err(e),
            Ok(o) => Ok(
                o + text@.subrange(
                    gap_start(span_view(spans@), spans@.len() as int),
                    text@.len() as int,
                ),
            ),
        },
{
    let ghost sv = span_view(spans@);
    let ghost single = single_template_of(*site);
    let ghost range = range_template_of(*site);
    let n = text.unicode_len();
    let mut out = String::new();
    let mut err: Option<BibleError> = None;
    let mut last: usize = 0;
    let mut k: usize = 0;
    while k < spans.len()
        invariant
            cs@ == text@,
            sv == span_view(spans@),
            single == single_template_of(*site),
            range == range_template_of(*site),
            well_placed(sv, text@.len() as int),
            all_matches(text@, sv),
            n == text@.len(),
            k <= spans.len(),
            last as int == gap_start(sv, k as int),
            last <= n,
            k < spans.len() ==> last <= sv[k as int].0,
            match link_upto(text@, sv, single, range, k as int) {
                Err(e) => err matches Some(x) && x@ == e,
                Ok(o) => err is None && out@ == o,
            },
        decreases spans.len() - k,
    {
        let sp = spans[k];
        assert(sv[k as int] == (sp.0 as int, sp.1 as int));
        let p = match match_at_exec(cs, sp.0) {
            Some(p) => p,
            None => {
                proof {
                    assert(false);
                }
                return Err(BibleError::ParsingError(text.to_owned()));
            },
        };
        let reference = ref_at_exec(cs, text, sp.0, &p);
        match site.get_url(&reference) {
            Err(e) => {
                err = Some(e);
            },
            Ok(u) => {
                if err.is_none() {
                    out.append(text.substring_char(last, sp.0));
                    out.append("[");
                    out.append(text.substring_char(sp.0, sp.1));
                    out.append("](");
                    out.append(u.as_str());
                    out.append(")");
                    proof {
                        assert(out@ =~= link_upto(text@, sv, single, range, k + 1)->Ok_0);
                    }
                }
            },
        }
        proof {
            if k + 1 < spans.len() {
                assert(sv[k as int].1 <= sv[k + 1].0);
            }
        }
        last = sp.1;
        k = k + 1;
    }
    match err {
        Some(e) => Err(e),
        None => {
            out.append(text.substring_char(last, n));
            Ok(out)
        },
    }
}

/// The spans with each character position turned into its UTF-8 byte offset.
pub open spec fn byte_spans(s: Seq<char>, spans: Seq<(int, int)>) -> Seq<(int, int)> {
    Seq::new(spans.len(), |k: int| (byte_pos(s, spans[k].0), byte_pos(s, spans[k].1)))
}

/// The spans in UTF-8 byte offsets.
pub fn to_byte_spans(text: &str, spans: &Vec<(usize, usize)>) -> (r: Vec<(usize, usize)>)
    requires
        forall|k: int|
            0 <= k < spans@.len() ==> (#[trigger] spans@[k]).0 <= text@.len() && spans@[k].1
                <= text@.len(),
    ensures
        span_view(r@) == byte_spans(text@, span_view(spans@)),
{
    let cs = chars_of(text);
    let table = byte_positions(text, &cs);
    let mut out: Vec<(usize, usize)> = Vec::new();
    let mut k: usize = 0;
    while k < spans.len()
        invariant
            cs@ == text@,
            table@.len() == cs@.len() + 1,
            forall|i: int| 0 <= i <= cs@.len() ==> table@[i] == byte_pos(text@, i),
            forall|j: int|
                0 <= j < spans@.len() ==> (#[trigger] spans@[j]).0 <= text@.len() && spans@[j].1
                    <= text@.len(),
            k <= spans.len(),
            span_view(out@) == byte_spans(text@, span_view(spans@)).take(k as int),
        decreases spans.len() - k,
    {
        let sp = spans[k];
        let ghost before = out@;
        out.push((table[sp.0], table[sp.1]));
        proof {
            assert(span_view(out@) =~= span_view(before).push(
                (byte_pos(text@, sp.0 as int), byte_pos(text@, sp.1 as int)),
            ));
            assert(span_view(out@) =~= byte_spans(text@, span_view(spans@)).take(k + 1));
        }
        k = k + 1;
    }
    proof {
        assert(byte_spans(text@, span_view(spans@)).take(k as int) =~= byte_spans(
            text@,
            span_view(spans@),
        ));
    }
    out
}

/// The candidate spans of a text, found once, and the text they were found in.
#[derive(Debug, PartialEq, Eq, Clone)]
pub struct Locations {
    /// Start and end (exclusive) of each candidate, in UTF-8 byte offsets.
    pub slices: Vec<(usize, usize)>,
    /// The text that was scanned.
    pub string: String,
}

/// The markup that goes before and after each citation.
#[derive(Debug, Default, Clone, PartialEq, Eq)]
struct Elements {
    prefix: Option<String>,
    postfix: Option<String>,
}

/// A text, the candidate spans found in it, and the markup to put around the
/// citations among them.
#[derive(Clone, Debug, PartialEq, Eq)]
pub struct Script {
    elements: Elements,
    slices: Vec<(usize, usize)>,
    string: String,
}

/// An optional text as a character sequence.
pub open spec fn opt_view(o: Option<String>) -> Option<Seq<char>> {
    match o {
        Some(s) => Some(s@),
        None => None,
    }
}

/// The text, or nothing when there is none.
pub open spec fn or_empty(o: Option<Seq<char>>) -> Seq<char> {
    match o {
        Some(s) => s,
        None => Seq::empty(),
    }
}

impl Script {
    /// The text.
    pub closed spec fn text(&self) -> Seq<char> {
        self.string@
    }

    /// The candidate spans, in character positions.
    pub closed spec fn spans(&self) -> Seq<(int, int)> {
        span_view(self.slices@)
    }

    /// The prefix, if one was given.
    pub closed spec fn prefix_of(&self) -> Option<Seq<char>> {
        opt_view(self.elements.prefix)
    }

    /// The postfix, if one was given.
    pub closed spec fn postfix_of(&self) -> Option<Seq<char>> {
        opt_view(self.elements.postfix)
    }

    /// The spans are the candidate spans of the text.
    pub open spec fn wf(&self) -> bool {
        self.spans() == candidate_spans(self.text())
    }

    /// Finds every candidate citation in `text`.
    pub fn new(text: &str) -> (r: Script)
        ensures
            r.wf(),
            r.text() == text@,
            r.prefix_of() is None,
            r.postfix_of() is None,
    {
        let cs = chars_of(text);
        let slices = locate(&cs);
        Script {
            string: text.to_owned(),
            slices,
            elements: Elements { prefix: None, postfix: None },
        }
    }

    /// The prefix to be added before each citation.
    pub fn prefix(self, prefix: &str) -> (r: Script)
        ensures
            r.text() == self.text(),
            r.spans() == self.spans(),
            r.prefix_of() == Some(prefix@),
            r.postfix_of() == self.postfix_of(),
    {
        Script {
            elements: Elements { prefix: Some(prefix.to_owned()), postfix: self.elements.postfix },
            slices: self.slices,
            string: self.string,
        }
    }

    /// The postfix to be added after each citation.
    pub fn postfix(self, postfix: &str) -> (r: Script)
        ensures
            r.text() == self.text(),
            r.spans() == self.spans(),
            r.prefix_of() == self.prefix_of(),
            r.postfix_of() == Some(postfix@),
    {
        Script {
            elements: Elements { prefix: self.elements.prefix, postfix: Some(postfix.to_owned()) },
            slices: self.slices,
            string: self.string,
        }
    }

    /// Whether a prefix was given.
    pub fn is_prefix(&self) -> (r: bool)
        ensures
            r == self.prefix_of() is Some,
    {
        self.elements.prefix.is_some()
    }

    /// Whether a postfix was given.
    pub fn is_postfix(&self) -> (r: bool)
        ensures
            r == self.postfix_of() is Some,
    {
        self.elements.postfix.is_some()
    }

    /// Puts the prefix before and the postfix after each citation; a missing
    /// one adds nothing.
    pub fn surround(self) -> (r: Script)
        requires
            self.wf(),
        ensures
            r.wf(),
            r.text() == surround_spec(self.text(), or_empty(self.prefix_of()), or_empty(
                self.postfix_of(),
            )),
            r.prefix_of() == self.prefix_of(),
            r.postfix_of() == self.postfix_of(),
    {
        let text = self.string.as_str();
        let cs = chars_of(text);
        proof {
            lemma_spans_from_ordered(text@, 0);
        }
        let cits = citations_exec(text, &cs, &self.slices);
        proof {
            lemma_citation_spans(text@);
        }
        let pre = match &self.elements.prefix {
            Some(p) => p.as_str(),
            None => "",
        };
        let post = match &self.elements.postfix {
            Some(p) => p.as_str(),
            None => "",
        };
        proof {
            reveal_strlit("");
        }
        let out = wrap_exec(text, &cits, pre, post);
        proof {
            assert(pre@ == or_empty(self.prefix_of()));
            assert(post@ == or_empty(self.postfix_of()));
        }
        let found = locate(&chars_of(out.as_str()));
        Script { elements: self.elements, slices: found, string: out }
    }

    /// Turns each candidate citation into a Markdown link to `site`; fails
    /// with the error of the last candidate whose link cannot be made, be it
    /// an unknown book or verses that no template can show.
    pub fn url(self, site: &Site) -> (r: Result<Script, BibleError>)
        requires
            self.wf(),
        ensures
            match link_spec(self.text(), single_template_of(*site), range_template_of(*site)) {
                Ok(t) => r matches Ok(x) && x.wf() && x.text() == t && x.prefix_of()
                    == self.prefix_of() && x.postfix_of() == self.postfix_of(),
                Err(e) => r matches Err(x) && x@ == e,
            },
    {
        let text = self.string.as_str();
        let cs = chars_of(text);
        proof {
            lemma_spans_from_ordered(text@, 0);
        }
        match link_exec(text, &cs, &self.slices, site) {
            Err(e) => Err(e),
            Ok(out) => {
                let found = locate(&chars_of(out.as_str()));
                Ok(Script { elements: self.elements, slices: found, string: out })
            },
        }
    }

    /// Returns the text.
    pub fn get_text(self) -> (r: String)
        ensures
            r@ == self.text(),
    {
        self.string
    }

    /// The text between two byte offsets, each at a character boundary.
    pub fn get_from_slice(&self, slice: &(usize, usize)) -> (r: String)
        requires
            exists|a: int, b: int|
                0 <= a <= b <= self.text().len() && byte_pos(self.text(), a) == slice.0
                    && byte_pos(self.text(), b) == slice.1,
        ensures
            forall|a: int, b: int|
                0 <= a <= b <= self.text().len() && byte_pos(self.text(), a) == slice.0
                    && byte_pos(self.text(), b) == slice.1 ==> r@ == self.text().subrange(a, b),
    {
        let text = self.string.as_str();
        let cs = chars_of(text);
        let table = byte_positions(text, &cs);
        let ghost wit = choose|a: int, b: int|
            0 <= a <= b <= self.text().len() && byte_pos(self.text(), a) == slice.0 && byte_pos(
                self.text(),
                b,
            ) == slice.1;
        let a = char_index(&table, slice.0, Ghost(wit.0));
        let b = char_index(&table, slice.1, Ghost(wit.1));
        proof {
            lemma_byte_pos_injective(text@, wit.0, a as int);
            lemma_byte_pos_injective(text@, wit.1, b as int);
            assert forall|x: int, y: int|
                0 <= x <= y <= self.text().len() && byte_pos(self.text(), x) == slice.0 && byte_pos(
                    self.text(),
                    y,
                ) == slice.1 implies x == a && y == b by {
                lemma_byte_pos_injective(text@, x, a as int);
                lemma_byte_pos_injective(text@, y, b as int);
            }
        }
        text.substring_char(a, b).to_owned()
    }

    /// The citations of the text, as written, left to right.
    pub fn get_scriptures(&self) -> (r: Vec<String>)
        requires
            self.wf(),
        ensures
            strings_view(r@) == scriptures_spec(self.text()),
    {
        let text = self.string.as_str();
        let cs = chars_of(text);
        proof {
            lemma_spans_from_ordered(text@, 0);
        }
        let cits = citations_exec(text, &cs, &self.slices);
        proof {
            lemma_citation_spans(text@);
        }
        texts_exec(text, &cits)
    }

    /// The candidate spans, in UTF-8 byte offsets, and the text.
    pub fn get_locations(&self) -> (r: Locations)
        requires
            self.wf(),
        ensures
            r.string@ == self.text(),
            span_view(r.slices@) == byte_spans(self.text(), self.spans()),
    {
        proof {
            lemma_spans_from_ordered(self.string@, 0);
            assert forall|k: int| 0 <= k < self.slices@.len() implies (#[trigger] self.slices@[k]).0
                <= self.string@.len() && self.slices@[k].1 <= self.string@.len() by {
                assert(span_view(self.slices@)[k] == (
                    self.slices@[k].0 as int,
                    self.slices@[k].1 as int,
                ));
            }
        }
        Locations { slices: to_byte_spans(self.string.as_str(), &self.slices), string: self.string.clone() }
    }
}

/// When no candidate is a citation, the filter keeps none.
pub proof fn lemma_citations_none(s: Seq<char>, c: Seq<(int, int)>, n: int)
    requires
        0 <= n <= c.len(),
        forall|j: int| 0 <= j < c.len() ==> !is_citation(s, #[trigger] c[j]),
    ensures
        citations_upto(s, c, n) == Seq::<(int, int)>::empty(),
    decreases n,
{
    if n > 0 {
        lemma_citations_none(s, c, n - 1);
    }
}

/// The first `n` wrapped spans take up the text up to the end of the `n`-th
/// span plus `n` times the markup.
pub proof fn lemma_wrap_upto_len(
    s: Seq<char>,
    spans: Seq<(int, int)>,
    pre: Seq<char>,
    post: Seq<char>,
    n: int,
)
    requires
        well_placed(spans, s.len() as int),
        0 <= n <= spans.len(),
    ensures
        wrap_upto(s, spans, pre, post, n).len() == gap_start(spans, n) + n * (pre.len()
            + post.len()),
    decreases n,
{
    if n > 0 {
        lemma_wrap_upto_len(s, spans, pre, post, n - 1);
        if n >= 2 {
            assert(spans[n - 2].1 <= spans[n - 1].0);
        }
        assert(0 <= spans[n - 1].0 < spans[n - 1].1 <= s.len());
        let m = pre.len() + post.len();
        let g = gap_start(spans, n - 1);
        let a = spans[n - 1].0;
        let b = spans[n - 1].1;
        assert(0 <= g <= a);
        assert((n - 1) * m + m == n * m) by (nonlinear_arith);
        assert(wrap_upto(s, spans, pre, post, n).len() == wrap_upto(s, spans, pre, post, n - 1).len()
            + (a - g) + pre.len() + (b - a) + post.len());
        assert(wrap_upto(s, spans, pre, post, n - 1).len() == g + (n - 1) * m);
        assert(gap_start(spans, n) == b);
        assert(wrap_upto(s, spans, pre, post, n).len() == b + n * m);
    } else {
        assert(n * (pre.len() + post.len()) == 0) by (nonlinear_arith)
            requires
                n == 0,
        ;
    }
}

/// Wrapping fewer spans gives a prefix of wrapping more.
pub proof fn lemma_wrap_upto_prefix(
    s: Seq<char>,
    spans: Seq<(int, int)>,
    pre: Seq<char>,
    post: Seq<char>,
    n: int,
    m: int,
)
    requires
        well_placed(spans, s.len() as int),
        0 <= n <= m <= spans.len(),
    ensures
        wrap_upto(s, spans, pre, post, n).len() <= wrap_upto(s, spans, pre, post, m).len(),
        wrap_upto(s, spans, pre, post, m).subrange(0, wrap_upto(s, spans, pre, post, n).len() as int)
            == wrap_upto(s, spans, pre, post, n),
    decreases m,
{
    if n < m {
        lemma_wrap_upto_prefix(s, spans, pre, post, n, m - 1);
        let short = wrap_upto(s, spans, pre, post, n);
        let mid = wrap_upto(s, spans, pre, post, m - 1);
        let long = wrap_upto(s, spans, pre, post, m);
        assert(long.subrange(0, mid.len() as int) =~= mid);
        assert(long.subrange(0, short.len() as int) =~= mid.subrange(0, short.len() as int));
    } else {
        assert(wrap_upto(s, spans, pre, post, m).subrange(
            0,
            wrap_upto(s, spans, pre, post, n).len() as int,
        ) =~= wrap_upto(s, spans, pre, post, n));
    }
}

/// With empty markup, wrapping the first `n` spans gives back the text up to
/// the end of the `n`-th span.
pub proof fn lemma_wrap_upto_plain(s: Seq<char>, spans: Seq<(int, int)>, n: int)
    requires
        well_placed(spans, s.len() as int),
        0 <= n <= spans.len(),
    ensures
        wrap_upto(s, spans, Seq::empty(), Seq::empty(), n) == s.subrange(0, gap_start(spans, n)),
    decreases n,
{
    if n > 0 {
        lemma_wrap_upto_plain(s, spans, n - 1);
        if n >= 2 {
            assert(spans[n - 2].1 <= spans[n - 1].0);
        }
        assert(wrap_upto(s, spans, Seq::empty(), Seq::empty(), n) =~= s.subrange(
            0,
            gap_start(spans, n),
        ));
    }
}

/// A text in which no candidate names a book has no citations: nothing is
/// listed, and surrounding changes nothing.
pub proof fn law_no_citations(s: Seq<char>, pre: Seq<char>, post: Seq<char>)
    requires
        forall|j: int|
            0 <= j < candidate_spans(s).len() ==> !is_citation(s, #[trigger] candidate_spans(s)[j]),
    ensures
        scriptures_spec(s) == Seq::<Seq<char>>::empty(),
        surround_spec(s, pre, post) == s,
{
    let c = candidate_spans(s);
    lemma_citations_none(s, c, c.len() as int);
    assert(scriptures_spec(s) =~= Seq::<Seq<char>>::empty());
    assert(surround_spec(s, pre, post) =~= s);
}

/// Surrounding with an empty prefix and an empty postfix gives the text back.
pub proof fn law_surround_empty_is_identity(s: Seq<char>)
    ensures
        surround_spec(s, Seq::empty(), Seq::empty()) == s,
{
    let c = citation_spans(s);
    lemma_citation_spans(s);
    lemma_wrap_upto_plain(s, c, c.len() as int);
    assert(surround_spec(s, Seq::empty(), Seq::empty()) =~= s);
}

/// Where the `k`-th span and the text before it land in the wrapped text.
pub proof fn lemma_wrap_piece(
    s: Seq<char>,
    c: Seq<(int, int)>,
    pre: Seq<char>,
    post: Seq<char>,
    k: int,
)
    requires
        well_placed(c, s.len() as int),
        0 <= k < c.len(),
    ensures
        ({
            let m = pre.len() + post.len();
            let out = wrap(s, c, pre, post);
            &&& out.subrange(c[k].0 + k * m, c[k].1 + (k + 1) * m) == pre + s.subrange(c[k].0, c[k].1)
                + post
            &&& out.subrange(gap_start(c, k) + k * m, c[k].0 + k * m) == s.subrange(
                gap_start(c, k),
                c[k].0,
            )
        }),
{
    let n = c.len() as int;
    let m = pre.len() + post.len();
    let out = wrap(s, c, pre, post);
    let whole = wrap_upto(s, c, pre, post, n);
    lemma_wrap_upto_len(s, c, pre, post, k);
    lemma_wrap_upto_len(s, c, pre, post, k + 1);
    lemma_wrap_upto_prefix(s, c, pre, post, k + 1, n);
    if k >= 1 {
        assert(c[k - 1].1 <= c[k].0);
    }
    assert(0 <= c[k].0 < c[k].1 <= s.len());
    let before = wrap_upto(s, c, pre, post, k);
    let upto = wrap_upto(s, c, pre, post, k + 1);
    let gap = s.subrange(gap_start(c, k), c[k].0);
    let cit = s.subrange(c[k].0, c[k].1);
    assert(upto == before + gap + pre + cit + post);
    assert((k + 1) * m == k * m + m) by (nonlinear_arith);
    assert(out.subrange(0, upto.len() as int) =~= whole.subrange(0, upto.len() as int));
    assert(out.subrange(0, upto.len() as int) =~= upto);
    assert(out.subrange(c[k].0 + k * m, c[k].1 + (k + 1) * m) =~= upto.subrange(
        c[k].0 + k * m,
        c[k].1 + (k + 1) * m,
    ));
    assert(upto.subrange(c[k].0 + k * m, c[k].1 + (k + 1) * m) =~= pre + cit + post);
    assert(out.subrange(gap_start(c, k) + k * m, c[k].0 + k * m) =~= upto.subrange(
        gap_start(c, k) + k * m,
        c[k].0 + k * m,
    ));
    assert(upto.subrange(gap_start(c, k) + k * m, c[k].0 + k * m) =~= gap);
}

/// When a text holds one citation, spanning `[a, b)`, surrounding gives the
/// text before `a`, then `pre`, the citation, `post`, and the text after `b`.
pub proof fn law_surround_single(s: Seq<char>, pre: Seq<char>, post: Seq<char>)
    requires
        citation_spans(s).len() == 1,
    ensures
        ({
            let a = citation_spans(s)[0].0;
            let b = citation_spans(s)[0].1;
            &&& scriptures_spec(s) == seq![s.subrange(a, b)]
            &&& surround_spec(s, pre, post) == s.take(a) + pre + s.subrange(a, b) + post + s.skip(b)
            &&& surround_spec(s, pre, post).len() == s.len() + pre.len() + post.len()
        }),
{
    let c = citation_spans(s);
    lemma_citation_spans(s);
    assert(0 <= c[0].0 < c[0].1 <= s.len());
    assert(wrap_upto(s, c, pre, post, 0) == Seq::<char>::empty());
    assert(scriptures_spec(s) =~= seq![s.subrange(c[0].0, c[0].1)]);
    assert(surround_spec(s, pre, post) =~= s.take(c[0].0) + pre + s.subrange(c[0].0, c[0].1) + post
        + s.skip(c[0].1));
}

/// Surrounding keeps every character outside the citations where it was,
/// shifted by the markup put in before it, and puts exactly `pre` and `post`
/// around each citation: with `m` the length of the markup, the result holds
/// `pre + c + post` at the `k`-th citation's start plus `k * m`, where `c` is
/// the `k`-th citation that the listing of the same text gives.
pub proof fn law_surround_layout(s: Seq<char>, pre: Seq<char>, post: Seq<char>)
    ensures
        ({
            let c = citation_spans(s);
            let n = c.len() as int;
            let m = pre.len() + post.len();
            let out = surround_spec(s, pre, post);
            &&& scriptures_spec(s).len() == n
            &&& out.len() == s.len() + n * m
            &&& forall|k: int|
                0 <= k < n ==> out.subrange(c[k].0 + k * m, c[k].1 + (k + 1) * m) == pre
                    + #[trigger] scriptures_spec(s)[k] + post
            &&& forall|k: int|
                0 <= k < n ==> out.subrange(gap_start(c, k) + k * m, (#[trigger] c[k]).0 + k * m)
                    == s.subrange(gap_start(c, k), c[k].0)
            &&& out.subrange(gap_start(c, n) + n * m, out.len() as int) == s.subrange(
                gap_start(c, n),
                s.len() as int,
            )
        }),
{
    let c = citation_spans(s);
    let n = c.len() as int;
    let m = pre.len() + post.len();
    let out = surround_spec(s, pre, post);
    lemma_citation_spans(s);
    lemma_wrap_upto_len(s, c, pre, post, n);
    let whole = wrap_upto(s, c, pre, post, n);
    if n > 0 {
        assert(0 <= c[n - 1].0 < c[n - 1].1 <= s.len());
    }
    assert(0 <= gap_start(c, n) <= s.len());
    assert(out == whole + s.subrange(gap_start(c, n), s.len() as int));
    assert(out.len() == s.len() + n * m);
    assert(out.subrange(gap_start(c, n) + n * m, out.len() as int) =~= s.subrange(
        gap_start(c, n),
        s.len() as int,
    ));
    assert forall|k: int| 0 <= k < n implies out.subrange(c[k].0 + k * m, c[k].1 + (k + 1) * m)
        == pre + #[trigger] scriptures_spec(s)[k] + post by {
        lemma_wrap_piece(s, c, pre, post, k);
    }
    assert forall|k: int| 0 <= k < n implies out.subrange(
        gap_start(c, k) + k * m,
        (#[trigger] c[k]).0 + k * m,
    ) == s.subrange(gap_start(c, k), c[k].0) by {
        lemma_wrap_piece(s, c, pre, post, k);
    }
}

/// The character position whose byte offset is `byte`, given the byte offset
/// of every position and one position `w` that has it.
pub fn char_index(table: &Vec<usize>, byte: usize, Ghost(w): Ghost<int>) -> (r: usize)
    requires
        0 <= w < table@.len(),
        table@[w] == byte,
    ensures
        r < table@.len(),
        table@[r as int] == byte,
{
    let mut k: usize = 0;
    while k < table.len()
        invariant
            0 <= w < table@.len(),
            table@[w] == byte,
            k <= table.len(),
            forall|j: int| 0 <= j < k ==> table@[j] != byte,
        decreases table.len() - k,
    {
        if table[k] == byte {
            return k;
        }
        k = k + 1;
    }
    proof {
        assert(false) by {
            assert(table@[w] == byte);
        }
    }
    0
}

} // verus!
