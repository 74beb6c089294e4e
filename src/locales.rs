//! Book registries, one module per locale, and the errors they report.
use vstd::prelude::*;

pub mod en_us;
pub mod es_sp;

verus! {

/// What can go wrong while reading or linking a citation.
#[derive(Debug, Clone, PartialEq, Eq)]
pub enum BibleError {
    /// The book token, as written, names no book of the registry.
    BookNotFound(String),
    /// The text holds no citation at all.
    ParsingError(String),
    /// The verses of a citation cannot be put into a link.
    UrlBuildError(String),
}

/// What an error holds, as character sequences.
pub enum ErrorView {
    BookNotFound(Seq<char>),
    ParsingError(Seq<char>),
    UrlBuildError(Seq<char>),
}

impl View for BibleError {
    type V = ErrorView;

    open spec fn view(&self) -> ErrorView {
        match self {
            BibleError::BookNotFound(t) => ErrorView::BookNotFound(t@),
            BibleError::ParsingError(t) => ErrorView::ParsingError(t@),
            BibleError::UrlBuildError(t) => ErrorView::UrlBuildError(t@),
        }
    }
}

/// Lookup of book tokens in one locale's registry.
pub trait BibleRef {
    /// The book number that a token names.
    fn get_index(book: &str) -> Result<u8, BibleError>;

    /// Whether a token names a book.
    fn is_valid(book: &str) -> bool;
}

} // verus!
