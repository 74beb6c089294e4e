//! The URL template engine: fills the placeholders `{BOOKNAME}`, `{CHAPTER}`,
//! `{BOOKNUM}` and `{VERSE}` of a site's link template from a reference.
use vstd::prelude::*;

use crate::locales::en_us::{book_number, canonical_name, resolve_token, Book};
use crate::locales::{BibleError, ErrorView};
use crate::parsers::scripture::{first_item, is_range_spec, Bible, RefView};
use crate::text::{
    chars_of, decimal, decimal_text, first_stop, first_stop_exec, Stop,
};

verus! {

/// The values that go into a template.
pub struct Fill {
    /// The book's canonical name.
    pub name: Seq<char>,
    /// The chapter as written, for the first `{CHAPTER}`.
    pub chapter: Seq<char>,
    /// The chapter padded to three digits, for every later `{CHAPTER}`.
    pub chapter_padded: Seq<char>,
    /// The book number padded to two digits.
    pub booknum: Seq<char>,
    /// The first verse padded to three digits, for the first `{VERSE}`.
    pub verse_one: Seq<char>,
    /// The verse after the range dash padded to three digits, for every later
    /// `{VERSE}`.
    pub verse_two: Seq<char>,
}

/// `s` with zeros put in front up to width `w`.
pub open spec fn pad(s: Seq<char>, w: nat) -> Seq<char> {
    if s.len() < w {
        Seq::new((w - s.len()) as nat, |k: int| '0') + s
    } else {
        s
    }
}

/// Whether the template holds `p` at position `i`.
pub open spec fn holds_at(t: Seq<char>, i: int, p: Seq<char>) -> bool {
    &&& p.len() > 0
    &&& 0 <= i
    &&& i + p.len() <= t.len()
    &&& t.subrange(i, i + p.len()) == p
}

/// The template from `i` on with each placeholder replaced once, left to
/// right; `chapter_seen` and `verse_seen` tell whether an earlier `{CHAPTER}`
/// or `{VERSE}` was already filled.
pub open spec fn expand(t: Seq<char>, i: int, f: Fill, chapter_seen: bool, verse_seen: bool) -> Seq<
    char,
>
    decreases t.len() - i,
{
    if i < 0 || i >= t.len() {
        Seq::empty()
    } else if holds_at(t, i, "{BOOKNAME}"@) {
        f.name + expand(t, i + "{BOOKNAME}"@.len(), f, chapter_seen, verse_seen)
    } else if holds_at(t, i, "{CHAPTER}"@) {
        (if chapter_seen {
            f.chapter_padded
        } else {
            f.chapter
        }) + expand(t, i + "{CHAPTER}"@.len(), f, true, verse_seen)
    } else if holds_at(t, i, "{BOOKNUM}"@) {
        f.booknum + expand(t, i + "{BOOKNUM}"@.len(), f, chapter_seen, verse_seen)
    } else if holds_at(t, i, "{VERSE}"@) {
        (if verse_seen {
            f.verse_two
        } else {
            f.verse_one
        }) + expand(t, i + "{VERSE}"@.len(), f, chapter_seen, true)
    } else {
        seq![t[i]] + expand(t, i + 1, f, chapter_seen, verse_seen)
    }
}

/// The whole template, filled.
pub open spec fn fill_template(t: Seq<char>, f: Fill) -> Seq<char> {
    expand(t, 0, f, false, false)
}

/// The part of the first verse item after its range dash, if it has one.
pub open spec fn after_dash(item: Seq<char>) -> Seq<char> {
    let d = first_stop(item, 0, Stop::Dash);
    if d < item.len() {
        item.subrange(d + 1, item.len() as int)
    } else {
        Seq::empty()
    }
}

/// The values for the reference `r` to the book `b`.
pub open spec fn fill_for(b: Book, r: RefView) -> Fill {
    let item = first_item(r.verse);
    Fill {
        name: canonical_name(b),
        chapter: r.chapter,
        chapter_padded: pad(r.chapter, 3),
        booknum: pad(decimal(book_number(b)), 2),
        verse_one: pad(item.take(first_stop(item, 0, Stop::Dash)), 3),
        verse_two: pad(after_dash(item), 3),
    }
}

/// Whether the verses hold a further chapter group, which no link can show.
pub open spec fn has_groups(v: Seq<char>) -> bool {
    first_stop(v, 0, Stop::Semicolon) < v.len()
}

/// The link that template `t` gives for reference `r`.
pub open spec fn url_with(t: Seq<char>, r: RefView) -> Result<Seq<char>, ErrorView> {
    match resolve_token(r.book) {
        None => Err(ErrorView::BookNotFound(r.book)),
        Some(b) => if has_groups(r.verse) {
            Err(ErrorView::UrlBuildError(r.verse))
        } else {
            Ok(fill_template(t, fill_for(b, r)))
        },
    }
}

/// The link for `r`: the range template when its first verse item is a
/// range, the single-verse template otherwise.
pub open spec fn url_spec(single: Seq<char>, range: Seq<char>, r: RefView) -> Result<
    Seq<char>,
    ErrorView,
> {
    if is_range_spec(r.verse) {
        url_with(range, r)
    } else {
        url_with(single, r)
    }
}

/// A text result as character sequences.
pub open spec fn text_view(r: Result<String, BibleError>) -> Result<Seq<char>, ErrorView> {
    match r {
        Ok(s) => Ok(s@),
        Err(e) => Err(e@),
    }
}

/// The values of a template, as text.
pub struct FillText {
    pub name: String,
    pub chapter: String,
    pub chapter_padded: String,
    pub booknum: String,
    pub verse_one: String,
    pub verse_two: String,
}

impl View for FillText {
    type V = Fill;

    open spec fn view(&self) -> Fill {
        Fill {
            name: self.name@,
            chapter: self.chapter@,
            chapter_padded: self.chapter_padded@,
            booknum: self.booknum@,
            verse_one: self.verse_one@,
            verse_two: self.verse_two@,
        }
    }
}

/// `s` with zeros put in front up to width `w`.
pub fn pad_text(s: &str, w: usize) -> (r: String)
    ensures
        r@ == pad(s@, w as nat),
{
    let n = s.unicode_len();
    let mut out = String::new();
    let zero = "0";
    proof {
        reveal_strlit("0");
        assert(zero@ =~= seq!['0']);
    }
    if n < w {
        let mut k: usize = 0;
        while k < w - n
            invariant
                n < w,
                k <= w - n,
                zero@ == seq!['0'],
                out@ == Seq::new(k as nat, |j: int| '0'),
            decreases w - n - k,
        {
            out.append(zero);
            proof {
                assert(out@ =~= Seq::new((k + 1) as nat, |j: int| '0'));
            }
            k = k + 1;
        }
    }
    out.append(s);
    proof {
        if n >= w {
            assert(out@ =~= s@);
        }
    }
    out
}

/// Whether the characters `t` hold the text `p` at position `i`.
pub fn holds_at_exec(t: &Vec<char>, i: usize, p: &str) -> (r: bool)
    requires
        i <= t.len(),
    ensures
        r == holds_at(t@, i as int, p@),
{
    let n = p.unicode_len();
    if n == 0 || n > t.len() - i {
        return false;
    }
    let mut k: usize = 0;
    while k < n
        invariant
            n == p@.len(),
            i + n <= t.len(),
            k <= n,
            forall|j: int| 0 <= j < k ==> t@[i + j] == p@[j],
        decreases n - k,
    {
        if t[i + k] != p.get_char(k) {
            proof {
                assert(t@.subrange(i as int, i + n)[k as int] != p@[k as int]);
            }
            return false;
        }
        k = k + 1;
    }
    proof {
        assert(t@.subrange(i as int, i + n) =~= p@);
    }
    true
}

/// The template `t` with its placeholders filled from `f`.
pub fn fill_template_exec(t: &str, f: &FillText) -> (r: String)
    ensures
        r@ == fill_template(t@, f@),
{
    let tc = chars_of(t);
    let mut out = String::new();
    let mut i: usize = 0;
    let mut chapter_seen = false;
    let mut verse_seen = false;
    while i < tc.len()
        invariant
            tc@ == t@,
            i <= tc.len(),
            out@ + expand(t@, i as int, f@, chapter_seen, verse_seen) == fill_template(t@, f@),
        decreases tc.len() - i,
    {
        let ghost before = out@;
        if holds_at_exec(&tc, i, "{BOOKNAME}") {
            out.append(f.name.as_str());
            i = i + "{BOOKNAME}".unicode_len();
        } else if holds_at_exec(&tc, i, "{CHAPTER}") {
            if chapter_seen {
                out.append(f.chapter_padded.as_str());
            } else {
                out.append(f.chapter.as_str());
            }
            chapter_seen = true;
            i = i + "{CHAPTER}".unicode_len();
        } else if holds_at_exec(&tc, i, "{BOOKNUM}") {
            out.append(f.booknum.as_str());
            i = i + "{BOOKNUM}".unicode_len();
        } else if holds_at_exec(&tc, i, "{VERSE}") {
            if verse_seen {
                out.append(f.verse_two.as_str());
            } else {
                out.append(f.verse_one.as_str());
            }
            verse_seen = true;
            i = i + "{VERSE}".unicode_len();
        } else {
            out.append(t.substring_char(i, i + 1));
            i = i + 1;
        }
        proof {
            assert(out@ + expand(t@, i as int, f@, chapter_seen, verse_seen) =~= fill_template(
                t@,
                f@,
            ));
        }
    }
    proof {
        assert(out@ =~= out@ + expand(t@, i as int, f@, chapter_seen, verse_seen));
    }
    out
}

/// The values for a reference to the book `b`.
pub fn fill_for_exec(b: Book, r: &Bible) -> (f: FillText)
    ensures
        f@ == fill_for(b, r@),
{
    let verse = r.verse.as_str();
    let vc = chars_of(verse);
    let stop = first_stop_exec(&vc, 0, Stop::Separator);
    let item = verse.substring_char(0, stop);
    let ic = chars_of(item);
    let d = first_stop_exec(&ic, 0, Stop::Dash);
    let one = item.substring_char(0, d);
    let two = if d < ic.len() {
        item.substring_char(d + 1, ic.len())
    } else {
        ""
    };
    proof {
        assert(item@ =~= first_item(r.verse@));
        if d >= ic.len() {
            reveal_strlit("");
            assert(two@ =~= after_dash(item@));
        }
    }
    let booknum = decimal_text(b.number());
    FillText {
        name: b.name().to_owned(),
        chapter: r.chapter.clone(),
        chapter_padded: pad_text(r.chapter.as_str(), 3),
        booknum: pad_text(booknum.as_str(), 2),
        verse_one: pad_text(one, 3),
        verse_two: pad_text(two, 3),
    }
}

/// The link that template `t` gives for the reference `r`.
pub fn url_with_exec(t: &str, r: &Bible) -> (res: Result<String, BibleError>)
    ensures
        text_view(res) == url_with(t@, r@),
{
    match Book::resolve(r.book.as_str()) {
        Err(e) => Err(e),
        Ok(b) => {
            let vc = chars_of(r.verse.as_str());
            if first_stop_exec(&vc, 0, Stop::Semicolon) < vc.len() {
                Err(BibleError::UrlBuildError(r.verse.clone()))
            } else {
                let f = fill_for_exec(b, r);
                Ok(fill_template_exec(t, &f))
            }
        },
    }
}

/// A site's two link templates.
pub struct UrlTemplate {
    /// For a single verse.
    pub single: String,
    /// For a range of verses.
    pub range: String,
}

/// A site that a citation can be linked to.
pub trait Url {
    /// The template for a single verse.
    spec fn single_template(&self) -> Seq<char>;

    /// The template for a range of verses.
    spec fn range_template(&self) -> Seq<char>;

    /// Returns the template for constructing the URL.
    fn get_template(&self) -> (r: UrlTemplate)
        ensures
            r.single@ == self.single_template(),
            r.range@ == self.range_template(),
    ;

    /// Returns the template for a single verse.
    fn get_single(&self) -> (r: String)
        ensures
            r@ == self.single_template(),
    ;

    /// Returns the template for a ranged verse.
    fn get_range(&self) -> (r: String)
        ensures
            r@ == self.range_template(),
    ;

    /// The link for a reference, by the range template when its first verse
    /// item is a range and by the single-verse template otherwise.
    fn get_url(&self, scripture: &Bible) -> (r: Result<String, BibleError>)
        ensures
            text_view(r) == url_spec(self.single_template(), self.range_template(), scripture@),
    {
        if scripture.is_range() {
            self.get_url_verse_range(scripture)
        } else {
            self.get_url_verse_single(scripture)
        }
    }

    /// The link for a reference by the single-verse template.
    fn get_url_verse_single(&self, scripture: &Bible) -> (r: Result<String, BibleError>)
        ensures
            text_view(r) == url_with(self.single_template(), scripture@),
    {
        let t = self.get_single();
        url_with_exec(t.as_str(), scripture)
    }

    /// The link for a reference by the range template.
    fn get_url_verse_range(&self, scripture: &Bible) -> (r: Result<String, BibleError>)
        ensures
            text_view(r) == url_with(self.range_template(), scripture@),
    {
        let t = self.get_range();
        url_with_exec(t.as_str(), scripture)
    }
}

} // verus!
