//! HTML documents and selectors as `scraper` holds them. Everything in this
//! file is believed of `scraper`, not proved.

use vstd::prelude::*;
use crate::model::byte_len;

verus! {

/// A parsed HTML document of `scraper`.
#[verifier::external_type_specification]
#[verifier::external_body]
pub struct ExHtml(scraper::Html);

/// A parsed group of CSS selectors of `scraper`.
#[verifier::external_type_specification]
#[verifier::external_body]
pub struct ExSelector(scraper::Selector);

/// A reference to one element of a parsed document.
#[verifier::external_type_specification]
#[verifier::external_body]
pub struct ExElementRef<'a>(scraper::ElementRef<'a>);

/// No text longer than this, in bytes, is handed to a parser of `scraper`.
/// The parsers keep what they read in buffers that they index with 32 bits,
/// growing them to the next power of two, and a byte of a page may stand
/// there as three; the selector parser counts lines in 32 bits. A quarter
/// of a gibibyte keeps clear of all of these.
pub const MAX_TEXT: usize = 268435456;

/// The document that `Html::parse_document` builds from a text.
pub uninterp spec fn parsed_document(text: Seq<char>) -> scraper::Html;

/// The selector that `Selector::parse` reads from a text, or `None` where
/// it reports an error.
pub uninterp spec fn parsed_selector(text: Seq<char>) -> Option<scraper::Selector>;

/// The first element that `Html::select` yields for a selector, or `None`
/// where it yields none. It goes through the nodes in the order in which
/// the parsed tree holds them, and yields the elements below the root that
/// the selector matches.
pub uninterp spec fn first_match(
    document: scraper::Html,
    selector: scraper::Selector,
) -> Option<scraper::ElementRef<'static>>;

/// The text nodes below an element, as `ElementRef::text` yields them on
/// its way through the element's descendants, joined without a separator.
pub uninterp spec fn element_text(element: scraper::ElementRef<'static>) -> Seq<char>;

/// Calls `Html::parse_document`, which builds a document from any text
/// that its buffers can hold.
#[verifier::external_body]
pub(crate) fn parse_document(text: &str) -> (document: scraper::Html)
    requires
        byte_len(text@) <= MAX_TEXT,
    ensures
        document == parsed_document(text@),
{
    scraper::Html::parse_document(text)
}

/// Calls `Selector::parse`, on a text short enough for its line counter.
/// An error becomes `None`.
#[verifier::external_body]
pub(crate) fn parse_selector(text: &str) -> (r: Option<scraper::Selector>)
    requires
        byte_len(text@) <= MAX_TEXT,
    ensures
        r == parsed_selector(text@),
{
    scraper::Selector::parse(text).ok()
}

/// Calls `Html::select` and takes the first element that it yields.
#[verifier::external_body]
pub(crate) fn select_first<'a>(document: &'a scraper::Html, selector: &scraper::Selector) -> (r:
    Option<scraper::ElementRef<'a>>)
    ensures
        r == first_match(*document, *selector),
{
    document.select(selector).next()
}

/// Calls `ElementRef::text` and joins what it yields into one string.
#[verifier::external_body]
pub(crate) fn text_of(element: &scraper::ElementRef<'_>) -> (r: String)
    ensures
        r@ == element_text(*element),
{
    element.text().collect()
}

} // verus!
