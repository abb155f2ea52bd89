//! The structural queries that find the listings and the pagination control
//! in a results page.

use crate::markup::{parse_selector, parsed_selector};
use scraper::Selector;
use vstd::prelude::*;

verus! {

/// One listing container.
pub const CARD: &'static str = ".item-teaser";

/// The anchor in a listing's header that carries the name and the link.
pub const NAME_LINK: &'static str = ".header .item-name a";

/// The price before the discount.
pub const ORIGINAL_PRICE: &'static str = ".price-value.price-old.price-bottle";

/// The discounted price.
pub const SALE_PRICE: &'static str = ".price-sale";

/// The discount label.
pub const DISCOUNT: &'static str = ".price-bottle-discount";

/// Bottle size and location.
pub const LOCATION: &'static str = ".item-meta.supporting-text span";

/// The anchors of the pagination control: the links to the numbered pages
/// and the control that leads forward.
pub const PAGINATION_LINK: &'static str = ".pagination a";

/// The parsed selectors that extraction works with.
pub struct Selectors {
    pub card: Selector,
    pub name_link: Selector,
    pub original_price: Selector,
    pub sale_price: Selector,
    pub discount: Selector,
    pub location: Selector,
    pub pagination_link: Selector,
}

/// The selectors of the shop's result pages, where all of them parse.
pub open spec fn standard_selectors() -> Option<Selectors> {
    if parsed_selector(CARD@) is Some && parsed_selector(NAME_LINK@) is Some && parsed_selector(
        ORIGINAL_PRICE@,
    ) is Some && parsed_selector(SALE_PRICE@) is Some && parsed_selector(DISCOUNT@) is Some
        && parsed_selector(LOCATION@) is Some && parsed_selector(PAGINATION_LINK@) is Some {
        Some(
            Selectors {
                card: parsed_selector(CARD@)->0,
                name_link: parsed_selector(NAME_LINK@)->0,
                original_price: parsed_selector(ORIGINAL_PRICE@)->0,
                sale_price: parsed_selector(SALE_PRICE@)->0,
                discount: parsed_selector(DISCOUNT@)->0,
                location: parsed_selector(LOCATION@)->0,
                pagination_link: parsed_selector(PAGINATION_LINK@)->0,
            },
        )
    } else {
        None
    }
}

impl Selectors {
    /// Parses the selectors of the shop's result pages.
    pub fn standard() -> (r: Option<Selectors>)
        ensures
            r == standard_selectors(),
    {
        let card = parse_selector(CARD);
        let name_link = parse_selector(NAME_LINK);
        let original_price = parse_selector(ORIGINAL_PRICE);
        let sale_price = parse_selector(SALE_PRICE);
        let discount = parse_selector(DISCOUNT);
        let location = parse_selector(LOCATION);
        let pagination_link = parse_selector(PAGINATION_LINK);
        match (card, name_link, original_price, sale_price, discount, location, pagination_link) {
            (Some(card), Some(name_link), Some(original_price), Some(sale_price), Some(discount), Some(location), Some(pagination_link)) => Some(
                Selectors {
                    card,
                    name_link,
                    original_price,
                    sale_price,
                    discount,
                    location,
                    pagination_link,
                },
            ),
            _ => None,
        }
    }
}

} // verus!
