//! Listings: what is read from each listing container of a page, and the
//! record that is made of it.

use crate::address::{join, joined, text_view};
use crate::markup::{
    attribute, document_matches, element_attribute, element_matches, element_texts,
    select_in_document, select_in_element, texts,
};
use crate::selectors::Selectors;
use crate::text::{trim, trimmed};
use scraper::{ElementRef, Html, Selector};
use vstd::prelude::*;

verus! {

/// The name anchor of a listing container as it stands in the page.
#[derive(Debug, Clone)]
pub struct Anchor {
    /// The anchor's first text node, if it has one.
    pub text: Option<String>,
    /// The anchor's `href` attribute, if it has one.
    pub href: Option<String>,
}

/// An anchor with its texts as sequences of characters.
pub struct AnchorView {
    pub text: Option<Seq<char>>,
    pub href: Option<Seq<char>>,
}

impl View for Anchor {
    type V = AnchorView;

    open spec fn view(&self) -> AnchorView {
        AnchorView { text: text_view(self.text), href: text_view(self.href) }
    }
}

/// What one listing container holds, untrimmed; `None` for what is not
/// there.
#[derive(Debug, Clone)]
pub struct Card {
    pub anchor: Option<Anchor>,
    pub original_price: Option<String>,
    pub sale_price: Option<String>,
    pub discount: Option<String>,
    pub location: Option<String>,
}

/// A card with its texts as sequences of characters.
pub struct CardView {
    pub anchor: Option<AnchorView>,
    pub original_price: Option<Seq<char>>,
    pub sale_price: Option<Seq<char>>,
    pub discount: Option<Seq<char>>,
    pub location: Option<Seq<char>>,
}

impl View for Card {
    type V = CardView;

    open spec fn view(&self) -> CardView {
        CardView {
            anchor: match self.anchor {
                Some(a) => Some(a@),
                None => None,
            },
            original_price: text_view(self.original_price),
            sale_price: text_view(self.sale_price),
            discount: text_view(self.discount),
            location: text_view(self.location),
        }
    }
}

/// One wine offer. A field the page does not show is `None`.
#[derive(Debug, Clone, PartialEq, Eq)]
pub struct Listing {
    pub name: String,
    pub original_price: Option<String>,
    pub sale_price: Option<String>,
    pub discount: Option<String>,
    pub link: String,
    pub location: Option<String>,
}

/// A listing with its texts as sequences of characters.
pub struct ListingView {
    pub name: Seq<char>,
    pub original_price: Option<Seq<char>>,
    pub sale_price: Option<Seq<char>>,
    pub discount: Option<Seq<char>>,
    pub link: Seq<char>,
    pub location: Option<Seq<char>>,
}

impl View for Listing {
    type V = ListingView;

    open spec fn view(&self) -> ListingView {
        ListingView {
            name: self.name@,
            original_price: text_view(self.original_price),
            sale_price: text_view(self.sale_price),
            discount: text_view(self.discount),
            link: self.link@,
            location: text_view(self.location),
        }
    }
}

/// Why a listing container gave no record.
#[derive(Debug, Clone, Copy, PartialEq, Eq, Structural)]
pub enum SkipReason {
    /// The container has no name anchor.
    MissingNameAnchor,
    /// The name anchor has no `href`.
    MissingLink,
    /// The `href` cannot be resolved against the address of the search.
    UnresolvableLink,
}

/// A listing container that gave no record: its position among the
/// containers of its page, and why.
#[derive(Debug, Clone, Copy, PartialEq, Eq, Structural)]
pub struct Skipped {
    pub index: usize,
    pub reason: SkipReason,
}

/// The records of a page and the containers that gave none.
#[derive(Debug, Clone)]
pub struct Extraction {
    pub listings: Vec<Listing>,
    pub skipped: Vec<Skipped>,
}

/// An extraction with its listings as views.
pub struct ExtractionView {
    pub listings: Seq<ListingView>,
    pub skipped: Seq<Skipped>,
}

/// The views of a list of listings.
pub open spec fn listings_view(listings: Seq<Listing>) -> Seq<ListingView> {
    listings.map_values(|l: Listing| l@)
}

/// The views of a list of cards.
pub open spec fn cards_view(cards: Seq<Card>) -> Seq<CardView> {
    cards.map_values(|c: Card| c@)
}

impl View for Extraction {
    type V = ExtractionView;

    open spec fn view(&self) -> ExtractionView {
        ExtractionView { listings: listings_view(self.listings@), skipped: self.skipped@ }
    }
}

/// The first text node of the first element below `element` that matches
/// `selector`; `None` where nothing matches or the match holds no text.
pub open spec fn first_text(element: ElementRef<'static>, selector: Selector) -> Option<Seq<char>> {
    let found = element_matches(element, selector);
    if found.len() == 0 {
        None
    } else {
        first_of(element_texts(found[0]))
    }
}

/// The first text of a list, if it has one.
pub open spec fn first_of(texts: Seq<Seq<char>>) -> Option<Seq<char>> {
    if texts.len() == 0 {
        None
    } else {
        Some(texts[0])
    }
}

/// The name anchor below `element`: the first match of `selector`, with its
/// first text node and its `href`.
pub open spec fn anchor_of(element: ElementRef<'static>, selector: Selector) -> Option<AnchorView> {
    let found = element_matches(element, selector);
    if found.len() == 0 {
        None
    } else {
        Some(
            AnchorView {
                text: first_of(element_texts(found[0])),
                href: element_attribute(found[0], "href"@),
            },
        )
    }
}

/// What the listing container `element` holds. Every part is looked for
/// below the container only.
pub open spec fn card_of(element: ElementRef<'static>, selectors: Selectors) -> CardView {
    CardView {
        anchor: anchor_of(element, selectors.name_link),
        original_price: first_text(element, selectors.original_price),
        sale_price: first_text(element, selectors.sale_price),
        discount: first_text(element, selectors.discount),
        location: first_text(element, selectors.location),
    }
}

/// The cards of all listing containers of `document`, in the order in which
/// the containers are found.
pub open spec fn cards_of(document: Html, selectors: Selectors) -> Seq<CardView> {
    document_matches(document, selectors.card).map_values(
        |e: ElementRef<'static>| card_of(e, selectors),
    )
}

/// A field that may be missing: trimmed where it is there.
pub open spec fn optional_field(raw: Option<Seq<char>>) -> Option<Seq<char>> {
    match raw {
        Some(t) => Some(trimmed(t)),
        None => None,
    }
}

/// The `href` of a card's name anchor, if it has both.
pub open spec fn href_of(card: CardView) -> Option<Seq<char>> {
    match card.anchor {
        Some(anchor) => anchor.href,
        None => None,
    }
}

/// The record made of `card`, given the absolute address `link` that its
/// `href` resolved to (`None` where it has no `href` or that did not
/// resolve). The name anchor and a resolvable link are required; every other
/// part may be missing. All texts are trimmed.
pub open spec fn listing_of(card: CardView, link: Option<Seq<char>>) -> Result<
    ListingView,
    SkipReason,
> {
    match card.anchor {
        None => Err(SkipReason::MissingNameAnchor),
        Some(anchor) => match anchor.href {
            None => Err(SkipReason::MissingLink),
            Some(_) => match link {
                None => Err(SkipReason::UnresolvableLink),
                Some(address) => Ok(
                    ListingView {
                        name: match anchor.text {
                            Some(t) => trimmed(t),
                            None => Seq::empty(),
                        },
                        original_price: optional_field(card.original_price),
                        sale_price: optional_field(card.sale_price),
                        discount: optional_field(card.discount),
                        link: address,
                        location: optional_field(card.location),
                    },
                ),
            },
        },
    }
}

/// The address that a card's `href` denotes in a page at `base`.
pub open spec fn link_of(card: CardView, base: Seq<char>) -> Option<Seq<char>> {
    match href_of(card) {
        Some(href) => joined(base, href),
        None => None,
    }
}

/// The record made of `card` in a page at `base`.
pub open spec fn outcome_of(card: CardView, base: Seq<char>) -> Result<ListingView, SkipReason> {
    listing_of(card, link_of(card, base))
}

/// The records of `cards`, in the order of the cards that gave one.
pub open spec fn listings_of(cards: Seq<CardView>, base: Seq<char>) -> Seq<ListingView>
    decreases cards.len(),
{
    if cards.len() == 0 {
        Seq::empty()
    } else {
        let before = listings_of(cards.drop_last(), base);
        match outcome_of(cards.last(), base) {
            Ok(listing) => before.push(listing),
            Err(_) => before,
        }
    }
}

/// The cards that gave no record, each with its position in `cards`, in
/// that order.
pub open spec fn skipped_of(cards: Seq<CardView>, base: Seq<char>) -> Seq<Skipped>
    decreases cards.len(),
{
    if cards.len() == 0 {
        Seq::empty()
    } else {
        let before = skipped_of(cards.drop_last(), base);
        match outcome_of(cards.last(), base) {
            Ok(_) => before,
            Err(reason) => before.push(
                Skipped { index: (cards.len() - 1) as usize, reason: reason },
            ),
        }
    }
}

/// What extraction makes of `cards` in a page at `base`.
pub open spec fn extraction_of(cards: Seq<CardView>, base: Seq<char>) -> ExtractionView {
    ExtractionView { listings: listings_of(cards, base), skipped: skipped_of(cards, base) }
}

/// The view of an outcome.
pub open spec fn outcome_view(outcome: Result<Listing, SkipReason>) -> Result<
    ListingView,
    SkipReason,
> {
    match outcome {
        Ok(listing) => Ok(listing@),
        Err(reason) => Err(reason),
    }
}

/// The text of the first element below `element` that matches `selector`.
pub fn get_text(element: &ElementRef, selector: &Selector) -> (r: Option<String>)
    ensures
        text_view(r) == first_text(*element, *selector),
{
    let found = select_in_element(element, selector);
    if found.len() == 0 {
        None
    } else {
        first_text_node(&found[0])
    }
}

fn first_text_node(element: &ElementRef) -> (r: Option<String>)
    ensures
        text_view(r) == first_of(element_texts(*element)),
{
    let all = texts(element);
    if all.len() == 0 {
        None
    } else {
        Some(all[0].clone())
    }
}

/// Reads the name anchor below a listing container.
pub fn read_anchor(element: &ElementRef, selector: &Selector) -> (r: Option<Anchor>)
    ensures
        (match r {
            Some(a) => Some(a@),
            None => None,
        }) == anchor_of(*element, *selector),
{
    let found = select_in_element(element, selector);
    if found.len() == 0 {
        None
    } else {
        Some(Anchor { text: first_text_node(&found[0]), href: attribute(&found[0], "href") })
    }
}

/// Reads what one listing container holds.
pub fn read_card(element: &ElementRef, selectors: &Selectors) -> (r: Card)
    ensures
        r@ == card_of(*element, *selectors),
{
    Card {
        anchor: read_anchor(element, &selectors.name_link),
        original_price: get_text(element, &selectors.original_price),
        sale_price: get_text(element, &selectors.sale_price),
        discount: get_text(element, &selectors.discount),
        location: get_text(element, &selectors.location),
    }
}

/// Reads the cards of all listing containers of a page.
pub fn read_cards(document: &Html, selectors: &Selectors) -> (r: Vec<Card>)
    ensures
        cards_view(r@) == cards_of(*document, *selectors),
{
    let containers = select_in_document(document, &selectors.card);
    let mut cards: Vec<Card> = Vec::new();
    let n: usize = containers.len();
    let mut i: usize = 0;
    while i < n
        invariant
            i <= n,
            n == containers.len(),
            containers@ == document_matches(*document, selectors.card),
            cards.len() == i,
            forall|k: int| 0 <= k < i ==> (#[trigger] cards@[k])@ == card_of(containers@[k], *selectors),
        decreases n - i,
    {
        let card = read_card(&containers[i], selectors);
        cards.push(card);
        i += 1;
    }
    cards
}

fn trim_optional(raw: &Option<String>) -> (r: Option<String>)
    ensures
        text_view(r) == optional_field(text_view(*raw)),
{
    match raw {
        Some(t) => Some(trim(t.as_str())),
        None => None,
    }
}

/// Makes the record of a card, given the address that its `href` resolved
/// to.
pub fn assemble_listing(card: &Card, link: Option<String>) -> (r: Result<Listing, SkipReason>)
    ensures
        outcome_view(r) == listing_of(card@, text_view(link)),
{
    match &card.anchor {
        None => Err(SkipReason::MissingNameAnchor),
        Some(anchor) => {
            if anchor.href.is_none() {
                return Err(SkipReason::MissingLink);
            }
            match link {
                None => Err(SkipReason::UnresolvableLink),
                Some(address) => {
                    let name = match &anchor.text {
                        Some(t) => trim(t.as_str()),
                        None => String::new(),
                    };
                    Ok(
                        Listing {
                            name,
                            original_price: trim_optional(&card.original_price),
                            sale_price: trim_optional(&card.sale_price),
                            discount: trim_optional(&card.discount),
                            link: address,
                            location: trim_optional(&card.location),
                        },
                    )
                },
            }
        },
    }
}

/// Resolves the `href` of a card against the address of its page.
pub fn resolve_link(card: &Card, base: &str) -> (r: Option<String>)
    ensures
        text_view(r) == link_of(card@, base@),
{
    match &card.anchor {
        Some(anchor) => match &anchor.href {
            Some(href) => join(base, href.as_str()),
            None => None,
        },
        None => None,
    }
}

/// Makes the record of a card in a page at `base`.
pub fn listing_from_card(card: &Card, base: &str) -> (r: Result<Listing, SkipReason>)
    ensures
        outcome_view(r) == outcome_of(card@, base@),
{
    let link = resolve_link(card, base);
    assemble_listing(card, link)
}

/// Makes the records of the cards of a page at `base`; a card that gives
/// none is reported and the others are not affected.
pub fn listings_from_cards(cards: &Vec<Card>, base: &str) -> (r: Extraction)
    ensures
        r@ == extraction_of(cards_view(cards@), base@),
{
    let mut listings: Vec<Listing> = Vec::new();
    let mut skipped: Vec<Skipped> = Vec::new();
    let n: usize = cards.len();
    let mut i: usize = 0;
    let ghost all = cards_view(cards@);
    while i < n
        invariant
            i <= n,
            n == cards.len(),
            all == cards_view(cards@),
            listings_view(listings@) == listings_of(all.subrange(0, i as int), base@),
            skipped@ == skipped_of(all.subrange(0, i as int), base@),
        decreases n - i,
    {
        assert(all.subrange(0, i + 1).drop_last() =~= all.subrange(0, i as int));
        match listing_from_card(&cards[i], base) {
            Ok(listing) => {
                listings.push(listing);
            },
            Err(reason) => {
                skipped.push(Skipped { index: i, reason });
            },
        }
        i += 1;
    }
    assert(all.subrange(0, n as int) =~= all);
    Extraction { listings, skipped }
}

/// Extracts the listings of a parsed page at `base`.
pub fn extract(document: &Html, selectors: &Selectors, base: &str) -> (r: Extraction)
    ensures
        r@ == extraction_of(cards_of(*document, *selectors), base@),
{
    let cards = read_cards(document, selectors);
    listings_from_cards(&cards, base)
}

/// Every card is accounted for once: it gave a record or it is reported as
/// skipped.
pub proof fn lemma_every_card_accounted_for(cards: Seq<CardView>, base: Seq<char>)
    ensures
        listings_of(cards, base).len() + skipped_of(cards, base).len() == cards.len(),
    decreases cards.len(),
{
    if cards.len() > 0 {
        lemma_every_card_accounted_for(cards.drop_last(), base);
    }
}

/// A page whose cards all give a record gives one record for each card, in
/// the order of the cards, and reports nothing as skipped.
pub proof fn lemma_valid_cards_give_their_listings(cards: Seq<CardView>, base: Seq<char>)
    requires
        forall|i: int| 0 <= i < cards.len() ==> (#[trigger] outcome_of(cards[i], base)) is Ok,
    ensures
        skipped_of(cards, base).len() == 0,
        listings_of(cards, base).len() == cards.len(),
        forall|i: int|
            0 <= i < cards.len() ==> Ok::<ListingView, SkipReason>(
                #[trigger] listings_of(cards, base)[i],
            ) == outcome_of(cards[i], base),
    decreases cards.len(),
{
    if cards.len() > 0 {
        lemma_valid_cards_give_their_listings(cards.drop_last(), base);
    }
}

/// Skipped cards are reported in the order of the cards: the positions
/// reported go up, and each is the position of a card that gave no record,
/// for the reason reported. This holds of every list that fits in memory.
pub proof fn lemma_skipped_positions(cards: Seq<CardView>, base: Seq<char>)
    requires
        cards.len() <= usize::MAX,
    ensures
        forall|k: int|
            0 <= k < skipped_of(cards, base).len() ==> {
                let skip = #[trigger] skipped_of(cards, base)[k];
                &&& skip.index < cards.len()
                &&& outcome_of(cards[skip.index as int], base) == Err::<ListingView, SkipReason>(
                    skip.reason,
                )
            },
        forall|j: int, k: int|
            0 <= j < k < skipped_of(cards, base).len() ==> (#[trigger] skipped_of(
                cards,
                base,
            )[j]).index < (#[trigger] skipped_of(cards, base)[k]).index,
    decreases cards.len(),
{
    if cards.len() > 0 {
        lemma_skipped_positions(cards.drop_last(), base);
    }
}

} // verus!
