//! Collects wine offers from a retailer's paginated search results.
//!
//! The crate decides *what* to fetch and *what* the fetched pages mean; it
//! never touches the network. A caller drives [`crawl::Crawl`] by performing
//! each requested fetch and handing the outcome back.
//!
//! - [`query`] builds the address of a filtered search and sets the page
//!   number in a list of query pairs.
//! - [`pagination`] reads the number of result pages from a page and builds
//!   the address of each page.
//! - [`listing`] reads the listings of a page, found by the structural queries
//!   of [`selectors`].
//! - [`pager`] is the policy of paging, retrying and giving up.
//! - [`crawl`] puts these together.
//! - [`address`] and [`markup`] are the boundaries to the `url` and `scraper`
//!   crates; [`text`] holds trimming and decimal numbers.

pub mod address;
pub mod crawl;
pub mod listing;
pub mod markup;
pub mod pager;
pub mod pagination;
pub mod query;
pub mod selectors;
pub mod text;
