//! The pagination driver as a state machine.
//!
//! A crawl asks for one address at a time. The caller performs the fetch and
//! reports how it ended; the crawl reads the page, lets its pager decide
//! what comes next, and answers with the next address. A fetch that fails,
//! or that brings a body that is blank or too long to be a page, is tried
//! again until the attempts for that page are used up; then the page is
//! recorded as failed and the crawl goes on with the next one.

use crate::listing::{
    cards_of, extract, extraction_of, listings_view, Extraction, Listing, ListingView, SkipReason,
    Skipped,
};
use crate::markup::{parse_document, parsed_document, MAX_PAGE_BYTES};
use crate::pager::{
    advance_of, attempts_allowed, can_retry, given_up, well_formed, Outcome, Pager, PagerView, Phase,
    Request,
};
use crate::pagination::{get_last_page, last_page_of, page_address, page_url};
use crate::query::{build_search_url, search_url, FilterNames, Filters};
use crate::selectors::Selectors;
use crate::text::{blank, byte_len, byte_length, is_blank};
use vstd::prelude::*;

verus! {

/// How a fetch that the crawl asked for ended.
#[derive(Debug, Clone)]
pub enum Event {
    /// The body of the response.
    Fetched(String),
    /// No usable response came: the network failed, the status was no
    /// success, or the time ran out.
    Failed,
}

/// An event with its body as a sequence of characters.
pub enum EventView {
    Fetched(Seq<char>),
    Failed,
}

impl View for Event {
    type V = EventView;

    open spec fn view(&self) -> EventView {
        match self {
            Event::Fetched(body) => EventView::Fetched(body@),
            Event::Failed => EventView::Failed,
        }
    }
}

/// What the caller is to do next.
#[derive(Debug, Clone, PartialEq, Eq)]
pub enum Action {
    /// Fetch this address and report the outcome to `step`.
    Fetch(String),
    /// The crawl is over.
    Finish,
}

/// An action with its address as a sequence of characters.
pub enum ActionView {
    Fetch(Seq<char>),
    Finish,
}

impl View for Action {
    type V = ActionView;

    open spec fn view(&self) -> ActionView {
        match self {
            Action::Fetch(address) => ActionView::Fetch(address@),
            Action::Finish => ActionView::Finish,
        }
    }
}

/// A listing container that gave no record: its page, its position among
/// the containers of that page, and why.
#[derive(Debug, Clone, Copy, PartialEq, Eq, Structural)]
pub struct PageSkip {
    pub page: u32,
    pub index: usize,
    pub reason: SkipReason,
}

/// The state of a crawl.
pub struct Crawl {
    search: String,
    selectors: Selectors,
    pager: Pager,
    listings: Vec<Listing>,
    skipped: Vec<PageSkip>,
}

/// The state of a crawl as contracts see it.
pub struct CrawlView {
    /// The address of the filtered search.
    pub search: Seq<char>,
    pub selectors: Selectors,
    pub pager: PagerView,
    /// The listings gathered so far, page by page.
    pub listings: Seq<ListingView>,
    /// The listing containers that gave no record so far.
    pub skipped: Seq<PageSkip>,
}

impl View for Crawl {
    type V = CrawlView;

    closed spec fn view(&self) -> CrawlView {
        CrawlView {
            search: self.search@,
            selectors: self.selectors,
            pager: self.pager@,
            listings: listings_view(self.listings@),
            skipped: self.skipped@,
        }
    }
}

/// The state in which a crawl of `search` begins.
pub open spec fn initial(search: Seq<char>, selectors: Selectors, max_attempts: u32) -> CrawlView {
    CrawlView {
        search: search,
        selectors: selectors,
        pager: crate::pager::initial(max_attempts),
        listings: Seq::empty(),
        skipped: Seq::empty(),
    }
}

/// Whether an event brings a body to work with: one that is not blank and
/// not longer than a page may be.
pub open spec fn usable(event: EventView) -> bool {
    event matches EventView::Fetched(body) && byte_length(body) <= MAX_PAGE_BYTES && !is_blank(
        body,
    )
}

/// The skipped containers of one page, each with its page number.
pub open spec fn skips_on_page(skipped: Seq<Skipped>, page: u32) -> Seq<PageSkip> {
    skipped.map_values(|s: Skipped| PageSkip { page: page, index: s.index, reason: s.reason })
}

/// The state with the listings of the page `body`, fetched as the current
/// page, taken in.
pub open spec fn with_page_body(s: CrawlView, body: Seq<char>) -> CrawlView {
    let found = extraction_of(cards_of(parsed_document(body), s.selectors), s.search);
    CrawlView {
        listings: s.listings + found.listings,
        skipped: s.skipped + skips_on_page(found.skipped, s.pager.page),
        ..s
    }
}

/// What a crawl learns from an event: the state with what the page held,
/// and the outcome for its pager. While counting, a usable body tells the
/// number of pages; while paging, it gives its listings. Anything else is a
/// failure.
pub open spec fn learn_of(s: CrawlView, event: EventView) -> (CrawlView, Outcome) {
    if !usable(event) {
        (s, Outcome::Failed)
    } else {
        match s.pager.phase {
            Phase::Counting => (
                s,
                Outcome::Counted(
                    last_page_of(parsed_document(event->Fetched_0), s.selectors, s.search),
                ),
            ),
            Phase::Paging => (with_page_body(s, event->Fetched_0), Outcome::Loaded),
            Phase::Finished => (s, Outcome::Loaded),
        }
    }
}

/// How a crawl answers a request of its pager: with the address to fetch.
/// Where the address of a result page cannot be built, the pager is told so
/// and the crawl ends.
pub open spec fn answer_of(s: CrawlView, request: Request) -> (CrawlView, ActionView) {
    match request {
        Request::Finish => (s, ActionView::Finish),
        Request::Search => (s, ActionView::Fetch(s.search)),
        Request::Page(p) => match page_address(s.search, p) {
            Some(address) => (s, ActionView::Fetch(address)),
            None => (
                CrawlView { pager: crate::pager::step_of(s.pager, Outcome::Unreachable).0, ..s },
                ActionView::Finish,
            ),
        },
    }
}

/// What a crawl in state `s` makes of `event`: its next state and what the
/// caller is to do.
pub open spec fn step_of(s: CrawlView, event: EventView) -> (CrawlView, ActionView) {
    let (learned, outcome) = learn_of(s, event);
    let (pager, request) = crate::pager::step_of(learned.pager, outcome);
    answer_of(CrawlView { pager: pager, ..learned }, request)
}

/// What a finished crawl has gathered.
#[derive(Debug, Clone)]
pub struct Report {
    /// The listings of all pages, page by page.
    pub listings: Vec<Listing>,
    /// The listing containers that gave no record.
    pub skipped: Vec<PageSkip>,
    /// The pages that could not be had.
    pub failed_pages: Vec<u32>,
}

impl Crawl {
    /// Begins a crawl of the search at `search`, each page tried
    /// `max_attempts` times at most. The first fetch is the search address
    /// itself, without page number.
    pub fn new(search: String, selectors: Selectors, max_attempts: u32) -> (r: (Crawl, Action))
        ensures
            r.0@ == initial(search@, selectors, max_attempts),
            r.1@ == ActionView::Fetch(search@),
    {
        let first = search.clone();
        let (pager, _) = Pager::new(max_attempts);
        let crawl = Crawl {
            search,
            selectors,
            pager,
            listings: Vec::new(),
            skipped: Vec::new(),
        };
        assert(listings_view(crawl.listings@) =~= Seq::empty());
        (crawl, Action::Fetch(first))
    }

    /// Begins a crawl of the search at `base` narrowed by `filters`.
    pub fn start(
        base: &str,
        names: &FilterNames,
        filters: &Filters,
        selectors: Selectors,
        max_attempts: u32,
    ) -> (r: (Crawl, Action))
        ensures
            r.0@ == initial(search_url(base@, names@, filters@), selectors, max_attempts),
            r.1@ == ActionView::Fetch(search_url(base@, names@, filters@)),
    {
        Crawl::new(build_search_url(base, names, filters), selectors, max_attempts)
    }

    /// Whether nothing is left to fetch.
    pub fn is_finished(&self) -> (r: bool)
        ensures
            r == (self@.pager.phase == Phase::Finished),
    {
        match self.pager.phase {
            Phase::Finished => true,
            _ => false,
        }
    }

    /// How often the fetch that the crawl is waiting for has failed already.
    pub fn failed_attempts(&self) -> (r: u32)
        ensures
            r == self@.pager.attempts,
    {
        self.pager.attempts
    }

    /// The number of result pages; 0 as long as it is not known.
    pub fn last_page(&self) -> (r: u32)
        ensures
            r == self@.pager.last_page,
    {
        self.pager.last_page
    }

    /// The listings gathered so far.
    pub fn listings(&self) -> (r: &Vec<Listing>)
        ensures
            listings_view(r@) == self@.listings,
    {
        &self.listings
    }

    /// The listing containers that gave no record so far.
    pub fn skipped(&self) -> (r: &Vec<PageSkip>)
        ensures
            r@ == self@.skipped,
    {
        &self.skipped
    }

    /// The pages that could not be had so far.
    pub fn failed_pages(&self) -> (r: &Vec<u32>)
        ensures
            r@ == self@.pager.failed_pages,
    {
        &self.pager.failed_pages
    }

    /// Hands out what the crawl has gathered.
    pub fn into_report(self) -> (r: Report)
        ensures
            listings_view(r.listings@) == self@.listings,
            r.skipped@ == self@.skipped,
            r.failed_pages@ == self@.pager.failed_pages,
    {
        Report {
            listings: self.listings,
            skipped: self.skipped,
            failed_pages: self.pager.failed_pages,
        }
    }

    fn take_in(&mut self, body: &str)
        requires
            byte_length(body@) <= MAX_PAGE_BYTES,
        ensures
            final(self)@ == with_page_body(old(self)@, body@),
    {
        let document = parse_document(body);
        let found = extract(&document, &self.selectors, self.search.as_str());
        let Extraction { listings: mut listings, skipped } = found;
        let ghost before = self.listings@;
        let ghost added = listings@;
        self.listings.append(&mut listings);
        assert(listings_view(before + added) =~= listings_view(before) + listings_view(added));
        let n: usize = skipped.len();
        let mut i: usize = 0;
        let ghost skipped_before = self.skipped@;
        let page: u32 = self.pager.page;
        while i < n
            invariant
                i <= n,
                n == skipped.len(),
                page == old(self)@.pager.page,
                self.skipped@ == skipped_before + skips_on_page(skipped@.subrange(0, i as int), page),
                self@ == (CrawlView { skipped: self.skipped@, ..with_page_body(old(self)@, body@) }),
            decreases n - i,
        {
            self.skipped.push(PageSkip { page, index: skipped[i].index, reason: skipped[i].reason });
            i += 1;
        }
        assert(skipped@.subrange(0, n as int) =~= skipped@);
    }

    fn learn(&mut self, event: Event) -> (outcome: Outcome)
        ensures
            (final(self)@, outcome) == learn_of(old(self)@, event@),
    {
        match event {
            Event::Failed => Outcome::Failed,
            Event::Fetched(body) => {
                if byte_len(body.as_str()) > MAX_PAGE_BYTES || blank(body.as_str()) {
                    Outcome::Failed
                } else {
                    match self.pager.phase {
                        Phase::Counting => {
                            let document = parse_document(body.as_str());
                            Outcome::Counted(
                                get_last_page(&document, &self.selectors, self.search.as_str()),
                            )
                        },
                        Phase::Paging => {
                            self.take_in(body.as_str());
                            Outcome::Loaded
                        },
                        Phase::Finished => Outcome::Loaded,
                    }
                }
            },
        }
    }

    fn answer(&mut self, request: Request) -> (action: Action)
        ensures
            (final(self)@, action@) == answer_of(old(self)@, request),
    {
        match request {
            Request::Finish => Action::Finish,
            Request::Search => Action::Fetch(self.search.clone()),
            Request::Page(p) => match page_url(self.search.as_str(), p) {
                Some(address) => Action::Fetch(address),
                None => {
                    self.pager.step(Outcome::Unreachable);
                    Action::Finish
                },
            },
        }
    }

    /// Takes the outcome of the fetch that was asked for last and says what
    /// to do next.
    pub fn step(&mut self, event: Event) -> (action: Action)
        ensures
            (final(self)@, action@) == step_of(old(self)@, event@),
    {
        let outcome = self.learn(event);
        let request = self.pager.step(outcome);
        self.answer(request)
    }
}

/// What a step never touches, and what it only adds to.
pub open spec fn carries_on(before: CrawlView, after: CrawlView) -> bool {
    &&& after.search == before.search
    &&& after.selectors == before.selectors
    &&& after.pager.max_attempts == before.pager.max_attempts
    &&& before.listings.is_prefix_of(after.listings)
    &&& before.skipped.is_prefix_of(after.skipped)
    &&& before.pager.failed_pages.is_prefix_of(after.pager.failed_pages)
}

/// A crawl begins with a well-formed pager and nothing gathered.
pub proof fn lemma_initial_well_formed(search: Seq<char>, selectors: Selectors, max_attempts: u32)
    ensures
        well_formed(initial(search, selectors, max_attempts).pager),
{
}

/// Whatever a fetch brings, a step keeps the pager well-formed, keeps the
/// search and everything gathered so far, and ends the crawl exactly when it
/// asks for no further fetch.
pub proof fn lemma_step_keeps_results(s: CrawlView, event: EventView)
    requires
        well_formed(s.pager),
    ensures
        well_formed(step_of(s, event).0.pager),
        carries_on(s, step_of(s, event).0),
        (step_of(s, event).1 is Finish) == (step_of(s, event).0.pager.phase == Phase::Finished),
{
}

/// A page that does not come, however often it is asked for, costs no
/// listing: a failure leaves the listings and the skipped containers as
/// they are.
pub proof fn lemma_failure_loses_nothing(s: CrawlView, event: EventView)
    requires
        !usable(event),
    ensures
        step_of(s, event).0.listings == s.listings,
        step_of(s, event).0.skipped == s.skipped,
{
}

/// A result page that comes adds exactly its own listings, behind those
/// gathered before.
pub proof fn lemma_page_adds_its_listings(s: CrawlView, body: Seq<char>)
    requires
        s.pager.phase == Phase::Paging,
        usable(EventView::Fetched(body)),
    ensures
        step_of(s, EventView::Fetched(body)).0.listings == s.listings + extraction_of(
            cards_of(parsed_document(body), s.selectors),
            s.search,
        ).listings,
{
}

/// Every step of a crawl that is not finished lowers the bound on the
/// fetches that are left: a caller that goes on until the crawl says
/// `Finish` comes to an end.
pub proof fn lemma_step_makes_progress(s: CrawlView, event: EventView)
    requires
        well_formed(s.pager),
        s.pager.phase != Phase::Finished,
    ensures
        crate::pager::requests_left(step_of(s, event).0.pager) < crate::pager::requests_left(
            s.pager,
        ),
{
    let outcome = learn_of(s, event).1;
    let pager = crate::pager::step_of(s.pager, outcome).0;
    crate::pager::lemma_step_makes_progress(s.pager, outcome);
    crate::pager::lemma_step_keeps_well_formed(s.pager, outcome);
    if pager.phase != Phase::Finished {
        crate::pager::lemma_step_makes_progress(pager, Outcome::Unreachable);
    }
}

/// The state after `count` fetches in a row have failed.
pub open spec fn after_failures(s: CrawlView, count: nat) -> CrawlView
    decreases count,
{
    if count == 0 {
        s
    } else {
        after_failures(step_of(s, EventView::Failed).0, (count - 1) as nat)
    }
}

/// The listings that the page `body` holds.
pub open spec fn page_listings(search: Seq<char>, selectors: Selectors, body: Seq<char>) -> Seq<
    ListingView,
> {
    extraction_of(cards_of(parsed_document(body), selectors), search).listings
}

/// A result page that fails every time it is asked for, whatever the limit
/// of attempts: when its attempts are used up, the crawl has given the page
/// up and has turned to what comes behind it, with every listing gathered
/// before still there. The step that uses up the last attempt asks for the
/// next page, or ends the crawl behind the last page.
pub proof fn lemma_persistent_failure(s: CrawlView)
    requires
        well_formed(s.pager),
        s.pager.phase == Phase::Paging,
        page_address(s.search, s.pager.page) is Some,
    ensures
        ({
            let left = (attempts_allowed(s.pager) - s.pager.attempts) as nat;
            let onward = advance_of(given_up(s.pager));
            let turned = answer_of(CrawlView { pager: onward.0, ..s }, onward.1);
            &&& left >= 1
            &&& after_failures(s, left) == turned.0
            &&& step_of(after_failures(s, (left - 1) as nat), EventView::Failed) == turned
            &&& after_failures(s, left).listings == s.listings
            &&& after_failures(s, left).skipped == s.skipped
            &&& s.pager.failed_pages.push(s.pager.page).is_prefix_of(
                after_failures(s, left).pager.failed_pages,
            )
        }),
    decreases attempts_allowed(s.pager) - s.pager.attempts,
{
    let left = (attempts_allowed(s.pager) - s.pager.attempts) as nat;
    let next = step_of(s, EventView::Failed).0;
    assert(after_failures(s, left) == after_failures(next, (left - 1) as nat));
    if can_retry(s.pager) {
        lemma_persistent_failure(next);
    }
}

/// A search of three pages whose second page never comes, whatever the limit
/// of attempts and whatever the pages hold: the crawl asks for page 1 and
/// page 2, asks for page 3 with the step that uses up the last attempt at
/// page 2, and ends behind page 3 with the listings of page 1 followed by
/// those of page 3 and with page 2 as the one failed page.
pub proof fn lemma_run_without_its_second_page(
    search: Seq<char>,
    selectors: Selectors,
    max_attempts: u32,
    first: Seq<char>,
    one: Seq<char>,
    three: Seq<char>,
)
    requires
        usable(EventView::Fetched(first)),
        usable(EventView::Fetched(one)),
        usable(EventView::Fetched(three)),
        last_page_of(parsed_document(first), selectors, search) == 3,
        page_address(search, 1) is Some,
        page_address(search, 2) is Some,
        page_address(search, 3) is Some,
    ensures
        ({
            let begun = initial(search, selectors, max_attempts);
            let counted = step_of(begun, EventView::Fetched(first));
            let read_one = step_of(counted.0, EventView::Fetched(one));
            let tries = attempts_allowed(begun.pager);
            let last_try = step_of(
                after_failures(read_one.0, (tries - 1) as nat),
                EventView::Failed,
            );
            let read_three = step_of(last_try.0, EventView::Fetched(three));
            &&& counted.1 == ActionView::Fetch(page_address(search, 1)->0)
            &&& read_one.1 == ActionView::Fetch(page_address(search, 2)->0)
            &&& last_try.0 == after_failures(read_one.0, tries)
            &&& last_try.1 == ActionView::Fetch(page_address(search, 3)->0)
            &&& read_three.1 == ActionView::Finish
            &&& read_three.0.pager.phase == Phase::Finished
            &&& read_three.0.listings == page_listings(search, selectors, one) + page_listings(
                search,
                selectors,
                three,
            )
            &&& read_three.0.pager.failed_pages == seq![2u32]
        }),
{
    let begun = initial(search, selectors, max_attempts);
    let counted = step_of(begun, EventView::Fetched(first));
    let read_one = step_of(counted.0, EventView::Fetched(one));
    lemma_persistent_failure(read_one.0);
    let tries = attempts_allowed(begun.pager);
    let last_try = step_of(after_failures(read_one.0, (tries - 1) as nat), EventView::Failed);
}

} // verus!
