//! The reference parser: turns the first citation of a text into a checked,
//! structured reference that keeps the book, chapter and verses as written.
use vstd::prelude::*;

use crate::locales::en_us::{book_number, resolve_token, Book};
use crate::locales::{BibleError, BibleRef, ErrorView};
use crate::parsers::locate::{
    book_end, chapter_end, chapter_start, has_verses, lemma_match_at_bounds, next_match,
    parts_of, spans_from, Parts,
};
use crate::text::{chars_of, decimal, decimal_text, first_stop, first_stop_exec, Stop};

verus! {

/// What a reference holds, as character sequences.
pub struct RefView {
    pub book: Seq<char>,
    pub booknum: Seq<char>,
    pub chapter: Seq<char>,
    pub verse: Seq<char>,
}

/// A scripture reference: the book token, chapter and verses exactly as they
/// were written, and the book's number in decimal.
#[derive(Debug, Default, Clone, PartialEq, Eq, PartialOrd, Ord)]
pub struct Bible {
    pub book: String,
    pub booknum: String,
    pub chapter: String,
    pub verse: String,
}

impl View for Bible {
    type V = RefView;

    open spec fn view(&self) -> RefView {
        RefView {
            book: self.book@,
            booknum: self.booknum@,
            chapter: self.chapter@,
            verse: self.verse@,
        }
    }
}

/// The first verse item of a verse specification: all before the first
/// comma or semicolon.
pub open spec fn first_item(v: Seq<char>) -> Seq<char> {
    v.take(first_stop(v, 0, Stop::Separator))
}

/// Whether the first verse item is a range `a-b` (any of the three dashes).
pub open spec fn is_range_spec(v: Seq<char>) -> bool {
    first_stop(first_item(v), 0, Stop::Dash) < first_item(v).len()
}

/// The book token of the citation that starts at `i`.
pub open spec fn token_at(s: Seq<char>, i: int) -> Seq<char> {
    s.subrange(i, book_end(s, i)->0)
}

/// Whether the candidate span `sp` names a book of the registry.
pub open spec fn is_citation(s: Seq<char>, sp: (int, int)) -> bool {
    resolve_token(token_at(s, sp.0)) is Some
}

/// The reference that the citation spanning `sp` makes: book token, chapter
/// and verses as written, and the book's number when the token names one.
pub open spec fn ref_at(s: Seq<char>, sp: (int, int)) -> RefView {
    let i = sp.0;
    RefView {
        book: token_at(s, i),
        booknum: match resolve_token(token_at(s, i)) {
            Some(b) => decimal(book_number(b)),
            None => Seq::empty(),
        },
        chapter: s.subrange(chapter_start(s, i), chapter_end(s, i)),
        verse: if has_verses(s, i) {
            s.subrange(chapter_end(s, i) + 1, sp.1)
        } else {
            Seq::empty()
        },
    }
}

/// The reference that a text's first citation makes, or why there is none.
pub open spec fn parse_spec(s: Seq<char>) -> Result<RefView, ErrorView> {
    let spans = spans_from(s, 0);
    if spans.len() == 0 {
        Err(ErrorView::ParsingError(s))
    } else if !is_citation(s, spans[0]) {
        Err(ErrorView::BookNotFound(token_at(s, spans[0].0)))
    } else {
        Ok(ref_at(s, spans[0]))
    }
}

/// The reference made by the citation at `i`, whose parts are `p`.
pub fn ref_at_exec(cs: &Vec<char>, text: &str, i: usize, p: &Parts) -> (r: Bible)
    requires
        cs@ == text@,
        i < cs.len(),
        parts_of(cs@, i as int, *p),
    ensures
        r@ == ref_at(text@, (i as int, p.end as int)),
{
    proof {
        lemma_match_at_bounds(cs@, i as int);
    }
    let token = text.substring_char(i, p.book_end);
    let booknum = match Book::resolve(token) {
        Ok(b) => decimal_text(b.number()),
        Err(_) => String::new(),
    };
    let chapter = text.substring_char(p.chapter_start, p.chapter_end);
    let verse = if p.chapter_end < p.end {
        text.substring_char(p.chapter_end + 1, p.end).to_owned()
    } else {
        String::new()
    };
    let r = Bible { book: token.to_owned(), booknum, chapter: chapter.to_owned(), verse };
    proof {
        assert(r@ == ref_at(text@, (i as int, p.end as int)));
    }
    r
}

/// Whether the citation at `i`, whose parts are `p`, names a book.
pub fn is_citation_exec(cs: &Vec<char>, text: &str, i: usize, p: &Parts) -> (r: bool)
    requires
        cs@ == text@,
        i < cs.len(),
        parts_of(cs@, i as int, *p),
    ensures
        r == is_citation(text@, (i as int, p.end as int)),
{
    proof {
        lemma_match_at_bounds(cs@, i as int);
    }
    Book::is_valid(text.substring_char(i, p.book_end))
}

/// A parse result as character sequences.
pub open spec fn parse_view(r: Result<Bible, BibleError>) -> Result<RefView, ErrorView> {
    match r {
        Ok(b) => Ok(b@),
        Err(e) => Err(e@),
    }
}

impl Bible {
    /// A reference made of the given parts, with no book number.
    pub fn single_scripture(book: &str, chapter: &str, verse: &str) -> (r: Bible)
        ensures
            r@.book == book@,
            r@.chapter == chapter@,
            r@.verse == verse@,
            r@.booknum == Seq::<char>::empty(),
    {
        Bible {
            book: book.to_owned(),
            chapter: chapter.to_owned(),
            verse: verse.to_owned(),
            booknum: String::new(),
        }
    }

    pub fn get_book(&self) -> (r: &str)
        ensures
            r@ == self.book@,
    {
        self.book.as_str()
    }

    pub fn get_chapter(&self) -> (r: &str)
        ensures
            r@ == self.chapter@,
    {
        self.chapter.as_str()
    }

    pub fn get_verse(&self) -> (r: &str)
        ensures
            r@ == self.verse@,
    {
        self.verse.as_str()
    }

    pub fn get_booknum(&self) -> (r: &str)
        ensures
            r@ == self.booknum@,
    {
        self.booknum.as_str()
    }

    /// The number of the book that the reference's book token names.
    pub fn get_idx(&self) -> (r: Result<u8, BibleError>)
        ensures
            match resolve_token(self.book@) {
                Some(b) => r == Ok::<u8, BibleError>(book_number(b) as u8),
                None => r matches Err(e) && e@ == ErrorView::BookNotFound(self.book@),
            },
    {
        match Book::resolve(self.book.as_str()) {
            Ok(b) => Ok(b.number()),
            Err(e) => Err(e),
        }
    }

    /// Whether the first verse item is a range.
    pub fn is_range(&self) -> (r: bool)
        ensures
            r == is_range_spec(self.verse@),
    {
        let v = chars_of(self.verse.as_str());
        let stop = first_stop_exec(&v, 0, Stop::Separator);
        let mut first: Vec<char> = Vec::new();
        let mut i: usize = 0;
        while i < stop
            invariant
                stop as int == first_stop(v@, 0, Stop::Separator),
                stop <= v.len(),
                i <= stop,
                first@ == v@.take(i as int),
            decreases stop - i,
        {
            first.push(v[i]);
            proof {
                assert(v@.take(i + 1) =~= v@.take(i as int).push(v@[i as int]));
            }
            i = i + 1;
        }
        first_stop_exec(&first, 0, Stop::Dash) < first.len()
    }

    /// Reads the first citation of `scripture` and checks its book.
    pub fn parse(scripture: &str) -> (r: Result<Bible, BibleError>)
        ensures
            parse_view(r) == parse_spec(scripture@),
    {
        let cs = chars_of(scripture);
        match next_match(&cs, 0) {
            None => Err(BibleError::ParsingError(scripture.to_owned())),
            Some(m) => {
                let i = m.0;
                let p = m.1;
                if is_citation_exec(&cs, scripture, i, &p) {
                    Ok(ref_at_exec(&cs, scripture, i, &p))
                } else {
                    proof {
                        lemma_match_at_bounds(cs@, i as int);
                    }
                    Err(BibleError::BookNotFound(scripture.substring_char(i, p.book_end).to_owned()))
                }
            },
        }
    }
}

} // verus!
