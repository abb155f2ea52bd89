use astor_scraper::pagination::{
    get_last_page, highest, page_of_link, page_url, read_linked_pages,
};
use astor_scraper::selectors::Selectors;
use scraper::Html;

const SEARCH: &str = "https://www.astorwines.com/WineSearchResult.aspx?search=Advanced&term=&cat=1";

/// A results page whose pagination control links the pages 1 to `pages`:
/// the forward control first, then the numbered pages.
fn page_with_pagination(pages: u32) -> String {
    let mut numbered = String::new();
    for n in 1..=pages {
        numbered.push_str(&format!(
            "<a href=\"WineSearchResult.aspx?search=Advanced&amp;term=&amp;cat=1&amp;Page={}\">{}</a>",
            n, n
        ));
    }
    format!(
        "<html><body><div class=\"pagination\"><span class=\"next\"><a href=\"WineSearchResult.aspx?search=Advanced&amp;term=&amp;cat=1&amp;Page=2\">Next</a></span><span class=\"pages\">{}</span></div><p>results</p></body></html>",
        numbered
    )
}

#[test]
fn last_page_is_read_from_the_pagination_control() {
    let selectors = Selectors::standard().unwrap();
    for pages in [2u32, 3, 7, 12] {
        let document = Html::parse_document(&page_with_pagination(pages));
        assert_eq!(get_last_page(&document, &selectors, SEARCH), pages);
    }
}

#[test]
fn last_page_is_the_highest_page_among_sibling_anchors() {
    let selectors = Selectors::standard().unwrap();
    let document = Html::parse_document(
        "<div class='pagination'><a href='?Page=1'>1</a><a href='?Page=2'>2</a><a href='?Page=3'>3</a><a href='?Page=2'>next</a></div>",
    );
    assert_eq!(
        read_linked_pages(&document, &selectors, "https://h.test/s?cat=1"),
        vec![Some(1), Some(2), Some(3), Some(2)]
    );
    assert_eq!(get_last_page(&document, &selectors, "https://h.test/s?cat=1"), 3);
}

#[test]
fn last_page_does_not_depend_on_the_order_of_the_anchors() {
    let selectors = Selectors::standard().unwrap();
    let document = Html::parse_document(
        "<ul class=\"pagination\"><li><a href=\"?Page=9\">last</a></li><li><a href=\"?Page=2\">next</a></li><li><a>…</a></li><li><a href=\"?Page=1\">1</a></li></ul>",
    );
    assert_eq!(get_last_page(&document, &selectors, SEARCH), 9);
}

#[test]
fn page_without_pagination_is_the_only_page() {
    let selectors = Selectors::standard().unwrap();
    let document = Html::parse_document("<html><body><div class=\"item-teaser\"></div></body></html>");
    assert_eq!(read_linked_pages(&document, &selectors, SEARCH), Vec::<Option<u32>>::new());
    assert_eq!(get_last_page(&document, &selectors, SEARCH), 1);
}

#[test]
fn pagination_with_a_single_anchor_is_the_only_page() {
    let selectors = Selectors::standard().unwrap();
    let document = Html::parse_document(
        "<div class=\"pagination\"><a href=\"?Page=9\">Next</a></div>",
    );
    assert_eq!(read_linked_pages(&document, &selectors, SEARCH), vec![Some(9)]);
    assert_eq!(get_last_page(&document, &selectors, SEARCH), 1);
}

#[test]
fn anchors_that_name_no_page_give_a_single_page() {
    let selectors = Selectors::standard().unwrap();
    let document = Html::parse_document(
        "<div class=\"pagination\"><a href=\"/help\">Help</a><a>4</a><a href=\"?Page=many\">many</a><a href=\"?Page=0\">0</a></div>",
    );
    assert_eq!(read_linked_pages(&document, &selectors, SEARCH), vec![None, None, None, Some(0)]);
    assert_eq!(get_last_page(&document, &selectors, SEARCH), 1);
}

#[test]
fn anchors_outside_the_pagination_control_are_not_counted() {
    let selectors = Selectors::standard().unwrap();
    let document = Html::parse_document(
        "<a href=\"?Page=50\">elsewhere</a><div class=\"pagination\"><a href=\"?Page=1\">1</a><a href=\"?Page=2\">2</a></div>",
    );
    assert_eq!(get_last_page(&document, &selectors, SEARCH), 2);
}

#[test]
fn page_of_a_link_is_read_from_the_address_it_resolves_to() {
    let link = |href: &str| Some(href.to_string());
    assert_eq!(page_of_link(&link("?Page=4"), SEARCH), Some(4));
    assert_eq!(page_of_link(&link("/other?x=1&Page=6&y=2"), SEARCH), Some(6));
    assert_eq!(page_of_link(&link("https://elsewhere.example/?Page=8"), SEARCH), Some(8));
    assert_eq!(page_of_link(&link("?Page=1&Page=3"), SEARCH), Some(3));
    assert_eq!(page_of_link(&link("?Page=0"), SEARCH), Some(0));
    assert_eq!(page_of_link(&link("?Page=many"), SEARCH), None);
    assert_eq!(page_of_link(&link("?page=4"), SEARCH), None);
    assert_eq!(page_of_link(&link("next"), SEARCH), None);
    assert_eq!(page_of_link(&link("https://[bad"), SEARCH), None);
    assert_eq!(page_of_link(&None, SEARCH), None);
}

#[test]
fn link_against_a_base_that_is_no_address_names_no_page() {
    assert_eq!(page_of_link(&Some("?Page=4".to_string()), "not an address"), None);
}

#[test]
fn highest_page_is_the_greatest_page_named_and_at_least_one() {
    assert_eq!(highest(&Vec::new()), 1);
    assert_eq!(highest(&vec![None, None]), 1);
    assert_eq!(highest(&vec![Some(0)]), 1);
    assert_eq!(highest(&vec![Some(1), Some(2), Some(3), Some(2)]), 3);
    assert_eq!(highest(&vec![Some(7), None, Some(3)]), 7);
    assert_eq!(highest(&vec![None, Some(u32::MAX), Some(1)]), u32::MAX);
}

#[test]
fn page_url_sets_the_page_parameter() {
    assert_eq!(
        page_url(SEARCH, 2),
        Some("https://www.astorwines.com/WineSearchResult.aspx?search=Advanced&term=&cat=1&Page=2".to_string())
    );
    assert_eq!(page_url("https://shop.example/list", 1), Some("https://shop.example/list?Page=1".to_string()));
}

#[test]
fn page_url_overwrites_an_earlier_page_parameter() {
    assert_eq!(
        page_url("https://shop.example/list?Page=1&cat=1", 3),
        Some("https://shop.example/list?cat=1&Page=3".to_string())
    );
}

#[test]
fn page_url_set_twice_equals_set_once() {
    for search in [SEARCH, "https://shop.example/list", "https://shop.example/list?Page=9&q=a%20b#top"] {
        let once = page_url(search, 4).unwrap();
        let twice = page_url(&once, 4).unwrap();
        assert_eq!(once, twice);
    }
}

#[test]
fn page_url_of_what_is_no_address_is_none() {
    assert_eq!(page_url("WineSearchResult.aspx?cat=1", 2), None);
    assert_eq!(page_url("", 1), None);
}

#[test]
fn page_url_of_an_address_that_is_too_long_is_none() {
    let limit = astor_scraper::address::MAX_ADDRESS_BYTES;
    let stem = "https://shop.example/list?q=";
    let longest = format!("{}{}", stem, "a".repeat(limit - stem.len()));
    assert_eq!(longest.len(), limit);
    let paged = page_url(&longest, 2).unwrap();
    assert!(paged.ends_with("a&Page=2"));
    assert_eq!(paged.len(), limit + "&Page=2".len());
    let too_long = format!("{}a", longest);
    assert_eq!(page_url(&too_long, 2), None);
}

#[test]
fn page_url_of_pairs_that_weigh_too_much_is_none() {
    let limit = astor_scraper::address::MAX_ADDRESS_BYTES;
    let stem = "https://shop.example/list?";
    let heavy = format!("{}{}", stem, "a&".repeat((limit - stem.len()) / 2));
    assert!(heavy.len() <= limit);
    assert_eq!(page_url(&heavy, 2), None);
}

#[test]
fn page_url_keeps_a_fragment() {
    assert_eq!(
        page_url("https://shop.example/list?cat=1#results", 2),
        Some("https://shop.example/list?cat=1&Page=2#results".to_string())
    );
}
