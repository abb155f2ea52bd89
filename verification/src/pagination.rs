//! Pagination: how many result pages there are, and the address of each.

use crate::address::{
    join, joined, pairs_weight, query_of, query_pairs, replace_query, text_view, with_query,
    MAX_ADDRESS_BYTES,
};
use crate::markup::{attribute, document_matches, element_attribute, select_in_document};
use crate::query::{page_of, read_page, set_page, weighs_at_most, with_page};
use crate::text::{byte_len, byte_length};
use crate::selectors::Selectors;
use scraper::{ElementRef, Html};
use vstd::prelude::*;

verus! {

/// The page that a link found in a page at `base` leads to: the page number
/// among the query pairs of the address that the link resolves to; `None`
/// where there is no link, where it does not resolve, or where the address
/// names no page.
pub open spec fn link_page(link: Option<Seq<char>>, base: Seq<char>) -> Option<u32> {
    match link {
        Some(href) => match joined(base, href) {
            Some(address) => match query_of(address) {
                Some(pairs) => page_of(pairs),
                None => None,
            },
            None => None,
        },
        None => None,
    }
}

/// The highest of the pages named, and 1 where none is named or none is
/// higher.
pub open spec fn highest_page(pages: Seq<Option<u32>>) -> u32
    decreases pages.len(),
{
    if pages.len() == 0 {
        1
    } else {
        let before = highest_page(pages.drop_last());
        match pages.last() {
            Some(n) => if n > before {
                n
            } else {
                before
            },
            None => before,
        }
    }
}

/// The pages that the anchors of the pagination control of `document`,
/// found at `base`, lead to, anchor by anchor.
pub open spec fn linked_pages(document: Html, selectors: Selectors, base: Seq<char>) -> Seq<
    Option<u32>,
> {
    document_matches(document, selectors.pagination_link).map_values(
        |anchor: ElementRef<'static>| link_page(element_attribute(anchor, "href"@), base),
    )
}

/// The number of result pages that `document`, found at `base`, announces:
/// the highest page that an anchor of its pagination control leads to. A
/// control with fewer than two anchors, as a search with a single page has
/// it, announces one page.
pub open spec fn last_page_of(document: Html, selectors: Selectors, base: Seq<char>) -> u32 {
    if document_matches(document, selectors.pagination_link).len() < 2 {
        1
    } else {
        highest_page(linked_pages(document, selectors, base))
    }
}

/// The address of result page `page` of the search at `search`: the same
/// address with the page number set in its query; `None` where `search` is
/// no absolute address, or where it or its pairs are longer than an address
/// may be.
pub open spec fn page_address(search: Seq<char>, page: u32) -> Option<Seq<char>> {
    if byte_length(search) > MAX_ADDRESS_BYTES {
        None
    } else {
        match query_of(search) {
            Some(pairs) => if pairs_weight(with_page(pairs, page)) > MAX_ADDRESS_BYTES {
                None
            } else {
                with_query(search, with_page(pairs, page))
            },
            None => None,
        }
    }
}

/// The page that a link found in a page at `base` leads to.
pub fn page_of_link(link: &Option<String>, base: &str) -> (r: Option<u32>)
    ensures
        r == link_page(text_view(*link), base@),
{
    match link {
        Some(href) => match join(base, href.as_str()) {
            Some(address) => match query_pairs(address.as_str()) {
                Some(pairs) => read_page(&pairs),
                None => None,
            },
            None => None,
        },
        None => None,
    }
}

/// The highest of the pages named, and 1 where none is named.
pub fn highest(pages: &Vec<Option<u32>>) -> (r: u32)
    ensures
        r == highest_page(pages@),
{
    let mut best: u32 = 1;
    let n: usize = pages.len();
    let mut i: usize = 0;
    while i < n
        invariant
            i <= n,
            n == pages.len(),
            best == highest_page(pages@.subrange(0, i as int)),
        decreases n - i,
    {
        assert(pages@.subrange(0, i + 1).drop_last() =~= pages@.subrange(0, i as int));
        match pages[i] {
            Some(p) => {
                if p > best {
                    best = p;
                }
            },
            None => {},
        }
        i += 1;
    }
    assert(pages@.subrange(0, n as int) =~= pages@);
    best
}

/// Reads the pages that the anchors of the pagination control lead to.
pub fn read_linked_pages(document: &Html, selectors: &Selectors, base: &str) -> (r: Vec<
    Option<u32>,
>)
    ensures
        r@ == linked_pages(*document, *selectors, base@),
{
    let anchors = select_in_document(document, &selectors.pagination_link);
    let mut pages: Vec<Option<u32>> = Vec::new();
    let n: usize = anchors.len();
    let mut i: usize = 0;
    while i < n
        invariant
            i <= n,
            n == anchors.len(),
            anchors@ == document_matches(*document, selectors.pagination_link),
            pages.len() == i,
            forall|k: int|
                0 <= k < i ==> #[trigger] pages@[k] == link_page(
                    element_attribute(anchors@[k], "href"@),
                    base@,
                ),
        decreases n - i,
    {
        let link = attribute(&anchors[i], "href");
        let page = page_of_link(&link, base);
        pages.push(page);
        i += 1;
    }
    pages
}

/// Resolves the number of result pages from the first page of a search. A
/// page without pagination control is the only page.
pub fn get_last_page(document: &Html, selectors: &Selectors, base: &str) -> (r: u32)
    ensures
        r == last_page_of(*document, *selectors, base@),
        r >= 1,
{
    let pages = read_linked_pages(document, selectors, base);
    proof {
        lemma_highest_page(pages@, 0);
    }
    if pages.len() < 2 {
        1
    } else {
        highest(&pages)
    }
}

/// Builds the address of result page `page` of a search.
pub fn page_url(search: &str, page: u32) -> (r: Option<String>)
    ensures
        text_view(r) == page_address(search@, page),
{
    if byte_len(search) > MAX_ADDRESS_BYTES {
        return None;
    }
    match query_pairs(search) {
        Some(pairs) => {
            let paged = set_page(&pairs, page);
            if weighs_at_most(&paged, MAX_ADDRESS_BYTES) {
                replace_query(search, &paged)
            } else {
                None
            }
        },
        None => None,
    }
}

/// The highest page is at least 1 and no lower than any page named, and it
/// is a page that is named unless it is 1. So where the pages named are 1 to
/// `n`, in any order and however often, it is `n`.
pub proof fn lemma_highest_page(pages: Seq<Option<u32>>, k: int)
    ensures
        highest_page(pages) >= 1,
        0 <= k < pages.len() && pages[k] is Some ==> highest_page(pages) >= pages[k]->0,
        highest_page(pages) == 1 || pages.contains(Some(highest_page(pages))),
    decreases pages.len(),
{
    if pages.len() > 0 {
        let before = pages.drop_last();
        lemma_highest_page(before, k);
    }
}

/// Where the anchors lead to no page above `n`, and one of them leads to
/// page `n`, the highest page is `n`.
pub proof fn lemma_highest_page_is_the_last(pages: Seq<Option<u32>>, n: u32)
    requires
        n >= 1,
        pages.contains(Some(n)),
        forall|i: int| 0 <= i < pages.len() && (#[trigger] pages[i]) is Some ==> pages[i]->0 <= n,
    ensures
        highest_page(pages) == n,
{
    let at = choose|i: int| 0 <= i < pages.len() && pages[i] == Some(n);
    lemma_highest_page(pages, at);
}

/// A search has at least one page. A page whose pagination control shows
/// fewer than two anchors is the only page. A control of two anchors or more
/// that lead to the pages 1 to `n`, none to a page above `n` and one to
/// page `n`, announces `n` pages.
pub proof fn lemma_last_page(document: Html, selectors: Selectors, base: Seq<char>, n: u32)
    ensures
        last_page_of(document, selectors, base) >= 1,
        document_matches(document, selectors.pagination_link).len() < 2 ==> last_page_of(
            document,
            selectors,
            base,
        ) == 1,
        ({
            let pages = linked_pages(document, selectors, base);
            &&& n >= 1
            &&& pages.len() >= 2
            &&& pages.contains(Some(n))
            &&& forall|i: int|
                0 <= i < pages.len() && (#[trigger] pages[i]) is Some ==> pages[i]->0 <= n
        }) ==> last_page_of(document, selectors, base) == n,
{
    let pages = linked_pages(document, selectors, base);
    lemma_highest_page(pages, 0);
    if n >= 1 && pages.len() >= 2 && pages.contains(Some(n)) && (forall|i: int|
        0 <= i < pages.len() && (#[trigger] pages[i]) is Some ==> pages[i]->0 <= n) {
        lemma_highest_page_is_the_last(pages, n);
    }
}

} // verus!
