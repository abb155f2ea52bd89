//! The boundary to the `scraper` crate: parsing a page and querying it with
//! CSS selectors.
//!
//! A parsed page, a selector and an element of a page are values of the
//! outside crate that this library only carries around. What a query finds
//! takes the whole of HTML parsing and selector matching to say, so each
//! result only gets a name here. An element stands for a place in its page:
//! two elements are the same where page and place are.

use crate::text::byte_length;
use scraper::{ElementRef, Html, Selector};
use vstd::prelude::*;

verus! {

/// Declares `scraper::Html`, a parsed page, as a type that is carried
/// around without being looked into.
#[verifier::external_type_specification]
#[verifier::external_body]
pub struct ExHtml(Html);

/// Declares `scraper::Selector`, a parsed selector group, likewise.
#[verifier::external_type_specification]
#[verifier::external_body]
pub struct ExSelector(Selector);

/// Declares `scraper::ElementRef`, an element of a parsed page, likewise.
#[verifier::external_type_specification]
#[verifier::external_body]
pub struct ExElementRef<'a>(ElementRef<'a>);

/// The page that `Html::parse_document` builds from `source`.
pub uninterp spec fn parsed_document(source: Seq<char>) -> Html;

/// The selector group that `Selector::parse` reads from `text`; `None`
/// where it reports an error.
pub uninterp spec fn parsed_selector(text: Seq<char>) -> Option<Selector>;

/// The elements of `document` that match `selector`, in the order in which
/// `Html::select` yields them.
pub uninterp spec fn document_matches(document: Html, selector: Selector) -> Seq<
    ElementRef<'static>,
>;

/// The elements below `element` that match `selector`, in the order in which
/// `ElementRef::select` yields them.
pub uninterp spec fn element_matches(element: ElementRef<'static>, selector: Selector) -> Seq<
    ElementRef<'static>,
>;

/// The text nodes below `element`, in the order in which `ElementRef::text`
/// yields them.
pub uninterp spec fn element_texts(element: ElementRef<'static>) -> Seq<Seq<char>>;

/// The value of the attribute `name` of `element`, as `ElementRef::attr`
/// returns it; `None` where it finds no such attribute.
pub uninterp spec fn element_attribute(element: ElementRef<'static>, name: Seq<char>) -> Option<
    Seq<char>,
>;

/// The characters of each text of a list.
pub open spec fn texts_view(texts: Seq<String>) -> Seq<Seq<char>> {
    texts.map_values(|t: String| t@)
}

/// The longest page source that is handed to the parser, in bytes: an
/// eighth of the 2^31 bytes that one buffer of the parser can hold.
pub const MAX_PAGE_BYTES: usize = 0x1000_0000;

/// Calls `Html::parse_document`, which reports no error: it builds a tree
/// from whatever it is given. The parser gathers each text in one buffer. A
/// buffer grows to the next power of two and panics where that is more than
/// 2^31 bytes, and the parser may write three bytes into it for one byte of
/// the source; so the call is safe for a source of up to a third of 2^31
/// bytes. The `requires` keeps well below that. Trusted: on such a source
/// the call returns, and the result is a function of the source text alone.
#[verifier::external_body]
pub(crate) fn parse_document(source: &str) -> (r: Html)
    requires
        byte_length(source@) <= MAX_PAGE_BYTES,
    ensures
        r == parsed_document(source@),
{
    Html::parse_document(source)
}

/// Calls `Selector::parse`. Trusted: the result is a function of the text
/// alone, and `None` exactly when the call reports an error.
#[verifier::external_body]
pub(crate) fn parse_selector(text: &str) -> (r: Option<Selector>)
    ensures
        r == parsed_selector(text@),
{
    Selector::parse(text).ok()
}

/// Calls `Html::select` and collects what the iterator yields. Trusted: the
/// result holds every element yielded, in the iterator's order.
#[verifier::external_body]
pub(crate) fn select_in_document<'a>(document: &'a Html, selector: &Selector) -> (r: Vec<
    ElementRef<'a>,
>)
    ensures
        r@ == document_matches(*document, *selector),
{
    document.select(selector).collect()
}

/// Calls `ElementRef::select` and collects what the iterator yields.
/// Trusted: the result holds every element yielded, in the iterator's
/// order.
#[verifier::external_body]
pub(crate) fn select_in_element<'a>(element: &ElementRef<'a>, selector: &Selector) -> (r: Vec<
    ElementRef<'a>,
>)
    ensures
        r@ == element_matches(*element, *selector),
{
    element.select(selector).collect()
}

/// Calls `ElementRef::text` and collects what the iterator yields. Trusted:
/// the result holds every text node yielded, in the iterator's order.
#[verifier::external_body]
pub(crate) fn texts(element: &ElementRef) -> (r: Vec<String>)
    ensures
        texts_view(r@) == element_texts(*element),
{
    element.text().map(String::from).collect()
}

/// Calls `ElementRef::attr`. Trusted: the result is what the call returns,
/// the value as an owned text or `None`.
#[verifier::external_body]
pub(crate) fn attribute(element: &ElementRef, name: &str) -> (r: Option<String>)
    ensures
        crate::address::text_view(r) == element_attribute(*element, name@),
{
    element.attr(name).map(String::from)
}

} // verus!
