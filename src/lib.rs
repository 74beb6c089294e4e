//! Finds Bible citations in free text, checks them against a book registry,
//! and rewrites the text around them: each citation wrapped in markup,
//! turned into a link to a study site, or listed.
use vstd::prelude::*;

pub mod locales;
pub mod parsers;
pub mod text;
pub mod url;

pub use locales::en_us::{Book, Site};
pub use locales::{BibleError, BibleRef};
pub use parsers::scripture::Bible;
pub use parsers::souround::Scribe;
pub use parsers::surround::{Locations, Script};
pub use url::Url;

use locales::en_us::{range_template_of, single_template_of};
use parsers::surround::{link_spec, scriptures_spec, strings_view, surround_spec};
use url::{text_view, url_spec};

verus! {

/// The locales that registries exist for.
#[allow(non_camel_case_types)]
#[derive(Debug, PartialEq, Eq, PartialOrd, Ord)]
pub enum Locale {
    /// American English.
    en_us,
    /// Spanish.
    es_es,
}

/// Puts `prefix` before and `postfix` after each citation found in `text`.
pub fn surround(text: &str, prefix: &str, postfix: &str) -> (r: String)
    ensures
        r@ == surround_spec(text@, prefix@, postfix@),
{
    Script::new(text).prefix(prefix).postfix(postfix).surround().get_text()
}

/// Turns each candidate citation found in `text` into a Markdown link to
/// `site`; the first failure in right-to-left order, an unknown book or verses
/// that no template can show, fails the whole call.
pub fn url(site: &Site, text: &str) -> (r: Result<String, BibleError>)
    ensures
        text_view(r) == link_spec(text@, single_template_of(*site), range_template_of(*site)),
{
    match Script::new(text).url(site) {
        Ok(s) => Ok(s.get_text()),
        Err(e) => Err(e),
    }
}

/// The citations found in `text`, as written, left to right.
pub fn get_scriptures(text: &str) -> (r: Vec<String>)
    ensures
        strings_view(r@) == scriptures_spec(text@),
{
    Script::new(text).get_scriptures()
}

/// The link to `site` for one reference.
pub fn resolve_url(reference: &Bible, site: &Site) -> (r: Result<String, BibleError>)
    ensures
        text_view(r) == url_spec(single_template_of(*site), range_template_of(*site), reference@),
{
    site.get_url(reference)
}

} // verus!
