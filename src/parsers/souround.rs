//! A plain annotator that marks every candidate span, whether or not its book
//! token names a book.
use vstd::prelude::*;

use crate::parsers::locate::{candidate_spans, lemma_spans_from_ordered, locate, span_view};
use crate::parsers::surround::{byte_spans, opt_view, or_empty, to_byte_spans, wrap, wrap_exec};
use crate::text::chars_of;

verus! {

/// A text, its candidate spans, and the markup to put around each of them.
#[derive(Clone, Debug, PartialEq, Eq)]
pub struct Scribe {
    text: String,
    slice: Vec<(usize, usize)>,
    prefix: Option<String>,
    postfix: Option<String>,
}

impl Scribe {
    /// The text.
    pub closed spec fn text(&self) -> Seq<char> {
        self.text@
    }

    /// The candidate spans, in character positions.
    pub closed spec fn spans(&self) -> Seq<(int, int)> {
        span_view(self.slice@)
    }

    /// The prefix, if one was given.
    pub closed spec fn prefix_of(&self) -> Option<Seq<char>> {
        opt_view(self.prefix)
    }

    /// The postfix, if one was given.
    pub closed spec fn postfix_of(&self) -> Option<Seq<char>> {
        opt_view(self.postfix)
    }

    /// Finds every candidate span of `text`.
    pub fn new(text: String, prefix: Option<String>, postfix: Option<String>) -> (r: Scribe)
        ensures
            r.text() == text@,
            r.wf(),
            r.prefix_of() == opt_view(prefix),
            r.postfix_of() == opt_view(postfix),
    {
        let slice = locate(&chars_of(text.as_str()));
        Scribe { text, slice, prefix, postfix }
    }

    /// Whether a prefix was given.
    pub fn is_prefix(&self) -> (r: bool)
        ensures
            r == self.prefix_of() is Some,
    {
        self.prefix.is_some()
    }

    /// Whether a postfix was given.
    pub fn is_postfix(&self) -> (r: bool)
        ensures
            r == self.postfix_of() is Some,
    {
        self.postfix.is_some()
    }

    /// The spans are the candidate spans of the text.
    pub open spec fn wf(&self) -> bool {
        self.spans() == candidate_spans(self.text())
    }

    /// The candidate spans, in UTF-8 byte offsets.
    pub fn slices(&self) -> (r: Vec<(usize, usize)>)
        requires
            self.wf(),
        ensures
            span_view(r@) == byte_spans(self.text(), self.spans()),
    {
        proof {
            lemma_spans_from_ordered(self.text@, 0);
            assert forall|k: int| 0 <= k < self.slice@.len() implies (#[trigger] self.slice@[k]).0
                <= self.text@.len() && self.slice@[k].1 <= self.text@.len() by {
                assert(span_view(self.slice@)[k] == (
                    self.slice@[k].0 as int,
                    self.slice@[k].1 as int,
                ));
            }
        }
        to_byte_spans(self.text.as_str(), &self.slice)
    }

    /// Puts the prefix before and the postfix after every candidate span; a
    /// missing one adds nothing.
    pub fn surround(self) -> (r: Scribe)
        requires
            self.wf(),
        ensures
            r.text() == wrap(
                self.text(),
                self.spans(),
                or_empty(self.prefix_of()),
                or_empty(self.postfix_of()),
            ),
            r.wf(),
            r.prefix_of() == self.prefix_of(),
            r.postfix_of() == self.postfix_of(),
    {
        let text = self.text.as_str();
        proof {
            lemma_spans_from_ordered(text@, 0);
            reveal_strlit("");
        }
        let pre = match &self.prefix {
            Some(p) => p.as_str(),
            None => "",
        };
        let post = match &self.postfix {
            Some(p) => p.as_str(),
            None => "",
        };
        let out = wrap_exec(text, &self.slice, pre, post);
        proof {
            assert(pre@ == or_empty(self.prefix_of()));
            assert(post@ == or_empty(self.postfix_of()));
        }
        let slice = locate(&chars_of(out.as_str()));
        Scribe { text: out, slice, prefix: self.prefix, postfix: self.postfix }
    }

    /// Returns the text.
    pub fn get_text(self) -> (r: String)
        ensures
            r@ == self.text(),
    {
        self.text
    }
}

} // verus!
