use astor_scraper::listing::{
    assemble_listing, extract, get_text, listing_from_card, listings_from_cards, read_anchor,
    read_card, read_cards, resolve_link, Anchor, Card, Listing, SkipReason, Skipped,
};
use astor_scraper::selectors::Selectors;
use scraper::{Html, Selector};

const SEARCH: &str = "https://www.astorwines.com/WineSearchResult.aspx?search=Advanced&cat=1";

fn some(text: &str) -> Option<String> {
    Some(text.to_string())
}

fn card_markup(name: &str, href: &str, old: &str, sale: &str, discount: &str, location: &str) -> String {
    format!(
        "<div class=\"item-teaser\">\n  <div class=\"header\"><h2 class=\"item-name\"><a href=\"{}\">\n    {}\n  </a></h2></div>\n  <div class=\"item-meta supporting-text\"><span> {} </span></div>\n  <span class=\"price-value price-old price-bottle\">\t{} </span>\n  <span class=\"price-sale\"> {}\n</span>\n  <span class=\"price-bottle-discount\"> {} </span>\n</div>\n",
        href, name, location, old, sale, discount
    )
}

fn page_markup(cards: &[String]) -> String {
    format!("<html><head><title>Results</title></head><body><div class=\"results\">{}</div></body></html>", cards.concat())
}

fn full_card(anchor: Option<Anchor>) -> Card {
    Card {
        anchor,
        original_price: some(" $25.99 "),
        sale_price: some("$19.99\n"),
        discount: some("\t23% off"),
        location: some(" 750ml "),
    }
}

#[test]
fn extract_returns_one_record_per_container_in_order() {
    let selectors = Selectors::standard().unwrap();
    let cards: Vec<String> = (1..=4)
        .map(|n| {
            card_markup(
                &format!("Wine {}", n),
                &format!("/item/{}", n),
                "$10.00",
                "$8.00",
                "20%",
                "750ml",
            )
        })
        .collect();
    let document = Html::parse_document(&page_markup(&cards));
    let found = extract(&document, &selectors, SEARCH);
    assert_eq!(found.listings.len(), 4);
    assert!(found.skipped.is_empty());
    let names: Vec<&str> = found.listings.iter().map(|l| l.name.as_str()).collect();
    assert_eq!(names, vec!["Wine 1", "Wine 2", "Wine 3", "Wine 4"]);
}

#[test]
fn extract_of_a_page_without_containers_is_empty() {
    let selectors = Selectors::standard().unwrap();
    let document = Html::parse_document("<html><body><p>No wines found.</p></body></html>");
    let found = extract(&document, &selectors, SEARCH);
    assert!(found.listings.is_empty());
    assert!(found.skipped.is_empty());
}

#[test]
fn extracted_fields_equal_the_trimmed_fixture_values() {
    let selectors = Selectors::standard().unwrap();
    let page = page_markup(&[card_markup(
        "Domaine Tempier Bandol Rosé 2021",
        "/SearchResultsSingle.aspx?p=1&amp;item=40123",
        "$54.96",
        "$43.96",
        "20% off",
        "750ml | France",
    )]);
    let found = extract(&Html::parse_document(&page), &selectors, SEARCH);
    assert_eq!(
        found.listings,
        vec![Listing {
            name: "Domaine Tempier Bandol Rosé 2021".to_string(),
            original_price: some("$54.96"),
            sale_price: some("$43.96"),
            discount: some("20% off"),
            link: "https://www.astorwines.com/SearchResultsSingle.aspx?p=1&item=40123".to_string(),
            location: some("750ml | France"),
        }]
    );
}

#[test]
fn container_without_name_anchor_is_skipped_and_the_rest_is_kept() {
    let selectors = Selectors::standard().unwrap();
    let broken = "<div class=\"item-teaser\"><span class=\"price-sale\">$5.00</span></div>".to_string();
    let page = page_markup(&[
        card_markup("First", "/item/1", "$10.00", "$8.00", "20%", "750ml"),
        broken,
        card_markup("Third", "/item/3", "$30.00", "$24.00", "20%", "1.5L"),
    ]);
    let found = extract(&Html::parse_document(&page), &selectors, SEARCH);
    let names: Vec<&str> = found.listings.iter().map(|l| l.name.as_str()).collect();
    assert_eq!(names, vec!["First", "Third"]);
    assert_eq!(found.skipped, vec![Skipped { index: 1, reason: SkipReason::MissingNameAnchor }]);
}

#[test]
fn missing_optional_fields_are_absent_not_fatal() {
    let selectors = Selectors::standard().unwrap();
    let page = page_markup(&[
        "<div class=\"item-teaser\"><div class=\"header\"><div class=\"item-name\"><a href=\"/item/9\">Promo Wine</a></div></div><span class=\"price-sale\"> $9.99 </span></div>".to_string(),
    ]);
    let found = extract(&Html::parse_document(&page), &selectors, SEARCH);
    assert_eq!(
        found.listings,
        vec![Listing {
            name: "Promo Wine".to_string(),
            original_price: None,
            sale_price: some("$9.99"),
            discount: None,
            link: "https://www.astorwines.com/item/9".to_string(),
            location: None,
        }]
    );
    assert!(found.skipped.is_empty());
}

#[test]
fn fields_are_read_below_their_own_container_only() {
    let selectors = Selectors::standard().unwrap();
    let page = page_markup(&[
        "<div class=\"item-teaser\"><div class=\"header\"><div class=\"item-name\"><a href=\"/item/1\">No Discount</a></div></div></div>".to_string(),
        card_markup("Discounted", "/item/2", "$10.00", "$8.00", "20%", "750ml"),
    ]);
    let found = extract(&Html::parse_document(&page), &selectors, SEARCH);
    assert_eq!(found.listings.len(), 2);
    assert_eq!(found.listings[0].discount, None);
    assert_eq!(found.listings[0].sale_price, None);
    assert_eq!(found.listings[1].discount, some("20%"));
}

#[test]
fn anchor_without_target_is_skipped_as_missing_link() {
    let selectors = Selectors::standard().unwrap();
    let page = page_markup(&[
        "<div class=\"item-teaser\"><div class=\"header\"><div class=\"item-name\"><a>Nameless target</a></div></div></div>".to_string(),
    ]);
    let found = extract(&Html::parse_document(&page), &selectors, SEARCH);
    assert!(found.listings.is_empty());
    assert_eq!(found.skipped, vec![Skipped { index: 0, reason: SkipReason::MissingLink }]);
}

#[test]
fn links_are_joined_to_the_address_of_the_search() {
    let anchor = |href: &str| Some(Anchor { text: some("Wine"), href: some(href) });
    let base = "https://www.astorwines.com/shop/WineSearchResult.aspx?cat=1";
    assert_eq!(resolve_link(&full_card(anchor("/item/1")), base), some("https://www.astorwines.com/item/1"));
    assert_eq!(resolve_link(&full_card(anchor("item/1")), base), some("https://www.astorwines.com/shop/item/1"));
    assert_eq!(
        resolve_link(&full_card(anchor("https://cdn.example/item/1?x=2")), base),
        some("https://cdn.example/item/1?x=2")
    );
    assert_eq!(resolve_link(&full_card(anchor("?item=1")), base), some("https://www.astorwines.com/shop/WineSearchResult.aspx?item=1"));
    assert_eq!(resolve_link(&full_card(Some(Anchor { text: some("Wine"), href: None })), base), None);
    assert_eq!(resolve_link(&full_card(None), base), None);
}

#[test]
fn link_that_does_not_resolve_is_skipped() {
    let card = full_card(Some(Anchor { text: some("Wine"), href: some("/item/1") }));
    assert_eq!(listing_from_card(&card, "no address at all"), Err(SkipReason::UnresolvableLink));
    let other = full_card(Some(Anchor { text: some("Wine"), href: some("https://[bad") }));
    assert_eq!(listing_from_card(&other, SEARCH), Err(SkipReason::UnresolvableLink));
}

#[test]
fn assemble_listing_trims_every_text() {
    let card = Card {
        anchor: Some(Anchor { text: some("\n   Chablis 2020 \t"), href: some("/item/7") }),
        original_price: some(" $25.99 "),
        sale_price: some("$19.99\n"),
        discount: some("\t23% off"),
        location: some("   "),
    };
    assert_eq!(
        assemble_listing(&card, some("https://shop.example/item/7")),
        Ok(Listing {
            name: "Chablis 2020".to_string(),
            original_price: some("$25.99"),
            sale_price: some("$19.99"),
            discount: some("23% off"),
            link: "https://shop.example/item/7".to_string(),
            location: some(""),
        })
    );
}

#[test]
fn assemble_listing_names_each_reason_to_skip() {
    assert_eq!(assemble_listing(&full_card(None), some("https://shop.example/")), Err(SkipReason::MissingNameAnchor));
    let no_target = full_card(Some(Anchor { text: some("Wine"), href: None }));
    assert_eq!(assemble_listing(&no_target, some("https://shop.example/")), Err(SkipReason::MissingLink));
    let with_target = full_card(Some(Anchor { text: some("Wine"), href: some("/item/1") }));
    assert_eq!(assemble_listing(&with_target, None), Err(SkipReason::UnresolvableLink));
}

#[test]
fn anchor_without_text_gives_an_empty_name() {
    let card = full_card(Some(Anchor { text: None, href: some("/item/1") }));
    let listing = assemble_listing(&card, some("https://shop.example/item/1")).unwrap();
    assert_eq!(listing.name, "");
}

#[test]
fn listings_from_cards_accounts_for_every_card() {
    let cards = vec![
        full_card(Some(Anchor { text: some("A"), href: some("/a") })),
        full_card(None),
        full_card(Some(Anchor { text: some("B"), href: None })),
        full_card(Some(Anchor { text: some("C"), href: some("/c") })),
    ];
    let found = listings_from_cards(&cards, SEARCH);
    assert_eq!(found.listings.len() + found.skipped.len(), cards.len());
    let links: Vec<&str> = found.listings.iter().map(|l| l.link.as_str()).collect();
    assert_eq!(links, vec!["https://www.astorwines.com/a", "https://www.astorwines.com/c"]);
    assert_eq!(
        found.skipped,
        vec![
            Skipped { index: 1, reason: SkipReason::MissingNameAnchor },
            Skipped { index: 2, reason: SkipReason::MissingLink },
        ]
    );
}

#[test]
fn cards_are_read_untrimmed() {
    let selectors = Selectors::standard().unwrap();
    let page = page_markup(&[card_markup("Wine", "/item/1", "$10.00", "$8.00", "20%", "750ml")]);
    let cards = read_cards(&Html::parse_document(&page), &selectors);
    assert_eq!(cards.len(), 1);
    let anchor = cards[0].anchor.clone().unwrap();
    assert_eq!(anchor.text, some("\n    Wine\n  "));
    assert_eq!(anchor.href, some("/item/1"));
    assert_eq!(cards[0].original_price, some("\t$10.00 "));
    assert_eq!(cards[0].sale_price, some(" $8.00\n"));
    assert_eq!(cards[0].discount, some(" 20% "));
    assert_eq!(cards[0].location, some(" 750ml "));
}

#[test]
fn get_text_gives_the_first_text_of_the_first_match() {
    let document = Html::parse_document(
        "<div id=\"box\"><p class=\"a\">one<b>two</b></p><p class=\"a\">three</p><p class=\"e\"></p><p class=\"n\"><i>deep</i> tail</p></div>",
    );
    let root = document.root_element();
    assert_eq!(get_text(&root, &Selector::parse(".a").unwrap()), some("one"));
    assert_eq!(get_text(&root, &Selector::parse(".n").unwrap()), some("deep"));
    assert_eq!(get_text(&root, &Selector::parse(".e").unwrap()), None);
    assert_eq!(get_text(&root, &Selector::parse(".missing").unwrap()), None);
}

#[test]
fn read_anchor_gives_text_and_target_of_the_first_match() {
    let document = Html::parse_document(
        "<div><a class=\"x\" href=\"/first\">First</a><a class=\"x\" href=\"/second\">Second</a><a class=\"y\">Bare</a></div>",
    );
    let root = document.root_element();
    let first = read_anchor(&root, &Selector::parse("a.x").unwrap()).unwrap();
    assert_eq!((first.text, first.href), (some("First"), some("/first")));
    let bare = read_anchor(&root, &Selector::parse("a.y").unwrap()).unwrap();
    assert_eq!((bare.text, bare.href), (some("Bare"), None));
    assert!(read_anchor(&root, &Selector::parse("a.z").unwrap()).is_none());
}

#[test]
fn read_card_of_an_empty_container_holds_nothing() {
    let selectors = Selectors::standard().unwrap();
    let document = Html::parse_document("<div class=\"item-teaser\"></div>");
    let container = document.select(&selectors.card).next().unwrap();
    let card = read_card(&container, &selectors);
    assert!(card.anchor.is_none());
    assert_eq!(card.original_price, None);
    assert_eq!(card.sale_price, None);
    assert_eq!(card.discount, None);
    assert_eq!(card.location, None);
}

#[test]
fn standard_selectors_parse() {
    let selectors = Selectors::standard().unwrap();
    assert_eq!(selectors.card, Selector::parse(".item-teaser").unwrap());
    assert_eq!(selectors.name_link, Selector::parse(".header .item-name a").unwrap());
    assert_eq!(selectors.original_price, Selector::parse(".price-value.price-old.price-bottle").unwrap());
    assert_eq!(selectors.sale_price, Selector::parse(".price-sale").unwrap());
    assert_eq!(selectors.discount, Selector::parse(".price-bottle-discount").unwrap());
    assert_eq!(selectors.location, Selector::parse(".item-meta.supporting-text span").unwrap());
    assert_eq!(selectors.pagination_link, Selector::parse(".pagination a").unwrap());
}
