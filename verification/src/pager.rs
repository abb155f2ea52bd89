//! The paging policy: which page to ask for next, when to try again, and
//! when to give a page up.
//!
//! A pager first asks for the search page, to learn the number of result
//! pages, and then for each result page from 1 to the last, one after the
//! other. It is told how each request ended and answers with the next
//! request. The number of pages is fixed by the first answer and never
//! looked at again.

use vstd::prelude::*;

verus! {

/// Where a pager stands.
#[derive(Debug, Clone, Copy, PartialEq, Eq, Structural)]
pub enum Phase {
    /// Waiting for the search page that tells the number of result pages.
    Counting,
    /// Waiting for a result page.
    Paging,
    /// Nothing is left to ask for.
    Finished,
}

/// How a request ended.
#[derive(Debug, Clone, Copy, PartialEq, Eq, Structural)]
pub enum Outcome {
    /// The page came and announces this many result pages.
    Counted(u32),
    /// The page came and has been dealt with.
    Loaded,
    /// The page did not come, or came without a usable body.
    Failed,
    /// The address of the page cannot be built, so that asking again is no
    /// use.
    Unreachable,
}

/// What to ask for next.
#[derive(Debug, Clone, Copy, PartialEq, Eq, Structural)]
pub enum Request {
    /// The search page itself, without page number.
    Search,
    /// The result page of this number.
    Page(u32),
    /// Nothing: the run is over.
    Finish,
}

/// The state of the paging policy.
#[derive(Debug, Clone)]
pub struct Pager {
    /// How often one page is asked for at most; 0 counts as 1.
    pub max_attempts: u32,
    pub phase: Phase,
    /// The result page that is being asked for, while paging.
    pub page: u32,
    /// The number of result pages, once it is known.
    pub last_page: u32,
    /// How many attempts at the current page have failed.
    pub attempts: u32,
    /// The result pages that were given up, in the order of their numbers.
    pub failed_pages: Vec<u32>,
}

/// The state of a pager as contracts see it.
pub struct PagerView {
    pub max_attempts: u32,
    pub phase: Phase,
    pub page: u32,
    pub last_page: u32,
    pub attempts: u32,
    pub failed_pages: Seq<u32>,
}

impl View for Pager {
    type V = PagerView;

    open spec fn view(&self) -> PagerView {
        PagerView {
            max_attempts: self.max_attempts,
            phase: self.phase,
            page: self.page,
            last_page: self.last_page,
            attempts: self.attempts,
            failed_pages: self.failed_pages@,
        }
    }
}

/// The state in which a pager begins: it waits for the search page.
pub open spec fn initial(max_attempts: u32) -> PagerView {
    PagerView {
        max_attempts: max_attempts,
        phase: Phase::Counting,
        page: 0,
        last_page: 0,
        attempts: 0,
        failed_pages: Seq::empty(),
    }
}

/// Whether the current page may be asked for once more after a failure.
pub open spec fn can_retry(s: PagerView) -> bool {
    s.max_attempts > 0 && s.attempts < s.max_attempts - 1
}

/// The end of the run.
pub open spec fn finish_of(s: PagerView) -> (PagerView, Request) {
    (PagerView { phase: Phase::Finished, attempts: 0, ..s }, Request::Finish)
}

/// The start of paging, once it is settled that there are `count` result
/// pages. A count of 0 stands for a single page.
pub open spec fn begin_of(s: PagerView, count: u32) -> (PagerView, Request) {
    (
        PagerView {
            phase: Phase::Paging,
            page: 1,
            last_page: if count >= 1 {
                count
            } else {
                1
            },
            attempts: 0,
            ..s
        },
        Request::Page(1),
    )
}

/// Going on behind the current result page: to the next one, or to the end
/// behind the last.
pub open spec fn advance_of(s: PagerView) -> (PagerView, Request) {
    if s.page < s.last_page {
        (
            PagerView { page: (s.page + 1) as u32, attempts: 0, ..s },
            Request::Page((s.page + 1) as u32),
        )
    } else {
        finish_of(s)
    }
}

/// The current result page given up.
pub open spec fn given_up(s: PagerView) -> PagerView {
    PagerView { failed_pages: s.failed_pages.push(s.page), ..s }
}

/// What a pager in state `s` makes of `outcome`: its next state and its
/// next request.
///
/// While counting: a count starts paging with that many pages; a page that
/// came without a count, or that failed for the last time, starts paging
/// with a single page; a failure before that asks for the search page
/// again. While paging: a page that came leads on to the next page; one that
/// failed for the last time is given up and leads on likewise; a failure
/// before that asks for the same page again. A page that cannot be asked for
/// at all ends the run, given up where it is a result page. A finished pager
/// stays as it is.
pub open spec fn step_of(s: PagerView, outcome: Outcome) -> (PagerView, Request) {
    match s.phase {
        Phase::Finished => (s, Request::Finish),
        Phase::Counting => match outcome {
            Outcome::Counted(count) => begin_of(s, count),
            Outcome::Loaded => begin_of(s, 1),
            Outcome::Failed => if can_retry(s) {
                (PagerView { attempts: (s.attempts + 1) as u32, ..s }, Request::Search)
            } else {
                begin_of(s, 1)
            },
            Outcome::Unreachable => finish_of(s),
        },
        Phase::Paging => match outcome {
            Outcome::Counted(_) => advance_of(s),
            Outcome::Loaded => advance_of(s),
            Outcome::Failed => if can_retry(s) {
                (PagerView { attempts: (s.attempts + 1) as u32, ..s }, Request::Page(s.page))
            } else {
                advance_of(given_up(s))
            },
            Outcome::Unreachable => finish_of(given_up(s)),
        },
    }
}

impl Pager {
    /// A pager that tries each page `max_attempts` times at most. Its first
    /// request is the search page.
    pub fn new(max_attempts: u32) -> (r: (Pager, Request))
        ensures
            r.0@ == initial(max_attempts),
            r.1 == Request::Search,
    {
        (
            Pager {
                max_attempts,
                phase: Phase::Counting,
                page: 0,
                last_page: 0,
                attempts: 0,
                failed_pages: Vec::new(),
            },
            Request::Search,
        )
    }

    fn finish(&mut self) -> (r: Request)
        ensures
            (final(self)@, r) == finish_of(old(self)@),
    {
        self.phase = Phase::Finished;
        self.attempts = 0;
        Request::Finish
    }

    fn begin(&mut self, count: u32) -> (r: Request)
        ensures
            (final(self)@, r) == begin_of(old(self)@, count),
    {
        self.phase = Phase::Paging;
        self.page = 1;
        self.last_page = if count >= 1 {
            count
        } else {
            1
        };
        self.attempts = 0;
        Request::Page(1)
    }

    fn advance(&mut self) -> (r: Request)
        ensures
            (final(self)@, r) == advance_of(old(self)@),
    {
        if self.page < self.last_page {
            self.page = self.page + 1;
            self.attempts = 0;
            Request::Page(self.page)
        } else {
            self.finish()
        }
    }

    fn give_up(&mut self)
        ensures
            final(self)@ == given_up(old(self)@),
    {
        self.failed_pages.push(self.page);
    }

    fn may_retry(&self) -> (r: bool)
        ensures
            r == can_retry(self@),
    {
        self.max_attempts > 0 && self.attempts < self.max_attempts - 1
    }

    /// Takes the outcome of the request that was made last and gives the
    /// next request.
    pub fn step(&mut self, outcome: Outcome) -> (r: Request)
        ensures
            (final(self)@, r) == step_of(old(self)@, outcome),
    {
        match self.phase {
            Phase::Finished => Request::Finish,
            Phase::Counting => match outcome {
                Outcome::Counted(count) => self.begin(count),
                Outcome::Loaded => self.begin(1),
                Outcome::Failed => {
                    if self.may_retry() {
                        self.attempts = self.attempts + 1;
                        Request::Search
                    } else {
                        self.begin(1)
                    }
                },
                Outcome::Unreachable => self.finish(),
            },
            Phase::Paging => match outcome {
                Outcome::Counted(_) => self.advance(),
                Outcome::Loaded => self.advance(),
                Outcome::Failed => {
                    if self.may_retry() {
                        self.attempts = self.attempts + 1;
                        Request::Page(self.page)
                    } else {
                        self.give_up();
                        self.advance()
                    }
                },
                Outcome::Unreachable => {
                    self.give_up();
                    self.finish()
                },
            },
        }
    }
}

/// How often one page is asked for at most.
pub open spec fn attempts_allowed(s: PagerView) -> nat {
    if s.max_attempts == 0 {
        1
    } else {
        s.max_attempts as nat
    }
}

/// The states that a pager can come to: while it waits for a page, not all
/// attempts are used up, and while paging, the page is one of the result
/// pages.
pub open spec fn well_formed(s: PagerView) -> bool {
    match s.phase {
        Phase::Counting => s.attempts < attempts_allowed(s),
        Phase::Paging => 1 <= s.page <= s.last_page && s.attempts < attempts_allowed(s),
        Phase::Finished => true,
    }
}

/// A bound on the number of requests that a pager may still make, counting
/// the one it waits for.
pub open spec fn requests_left(s: PagerView) -> nat {
    match s.phase {
        Phase::Counting => (u32::MAX * attempts_allowed(s) + attempts_allowed(s) - s.attempts) as nat,
        Phase::Paging => ((s.last_page - s.page) * attempts_allowed(s) + attempts_allowed(s)
            - s.attempts) as nat,
        Phase::Finished => 0,
    }
}

/// A pager begins in a well-formed state.
pub proof fn lemma_initial_well_formed(max_attempts: u32)
    ensures
        well_formed(initial(max_attempts)),
{
}

/// A step leaves a well-formed state well-formed. It keeps the limit of
/// attempts and the pages given up so far. The number of pages is settled
/// once: a pager that has left counting never counts again, and while it
/// pages, the last page stays what it is.
pub proof fn lemma_step_keeps_well_formed(s: PagerView, outcome: Outcome)
    requires
        well_formed(s),
    ensures
        well_formed(step_of(s, outcome).0),
        step_of(s, outcome).0.max_attempts == s.max_attempts,
        s.failed_pages.is_prefix_of(step_of(s, outcome).0.failed_pages),
        s.phase != Phase::Counting ==> step_of(s, outcome).0.phase != Phase::Counting,
        s.phase == Phase::Paging ==> step_of(s, outcome).0.last_page == s.last_page,
{
}

/// The request says where the pager stands afterwards: it ends exactly when
/// the pager is finished, it names the search page only while counting, and
/// a page only while paging at that page.
pub proof fn lemma_request_matches_state(s: PagerView, outcome: Outcome)
    requires
        well_formed(s),
    ensures
        ({
            let (after, request) = step_of(s, outcome);
            &&& (request == Request::Finish) == (after.phase == Phase::Finished)
            &&& (request == Request::Search) == (after.phase == Phase::Counting)
            &&& request matches Request::Page(p) ==> after.phase == Phase::Paging && after.page
                == p
        }),
{
}

/// Pages are asked for in order and without gaps: paging begins at page 1,
/// and from a page the pager turns to the same page again or to the one
/// behind it.
pub proof fn lemma_pages_in_order(s: PagerView, outcome: Outcome, p: u32)
    requires
        well_formed(s),
        step_of(s, outcome).1 == Request::Page(p),
    ensures
        s.phase == Phase::Counting ==> p == 1,
        s.phase == Phase::Paging ==> p == s.page || p == s.page + 1,
        s.phase == Phase::Paging && p == s.page ==> outcome == Outcome::Failed && can_retry(s),
{
}

/// A page is given up only at the step that leaves it for good, and only a
/// page that did not come: a page that came is never recorded as failed.
pub proof fn lemma_only_failures_are_given_up(s: PagerView, outcome: Outcome)
    requires
        well_formed(s),
    ensures
        ({
            let after = step_of(s, outcome).0;
            after.failed_pages == if s.phase == Phase::Paging && (outcome == Outcome::Unreachable
                || (outcome == Outcome::Failed && !can_retry(s))) {
                s.failed_pages.push(s.page)
            } else {
                s.failed_pages
            }
        }),
{
}

/// Every step of a pager that is not finished lowers the bound on the
/// requests that are left: whoever goes on until the pager says `Finish`
/// comes to an end.
pub proof fn lemma_step_makes_progress(s: PagerView, outcome: Outcome)
    requires
        well_formed(s),
        s.phase != Phase::Finished,
    ensures
        requests_left(step_of(s, outcome).0) < requests_left(s),
{
    let allowed = attempts_allowed(s) as int;
    let after = step_of(s, outcome).0;
    if after.phase == Phase::Paging && after.attempts == 0 {
        let bound: int = if s.phase == Phase::Counting {
            u32::MAX as int
        } else {
            s.last_page - s.page
        };
        assert((after.last_page - after.page + 1) * allowed <= bound * allowed)
            by (nonlinear_arith)
            requires
                after.last_page - after.page + 1 <= bound,
                allowed >= 1,
        ;
        assert((after.last_page - after.page + 1) * allowed == (after.last_page - after.page)
            * allowed + allowed) by (nonlinear_arith);
    }
}

/// The state after `count` requests in a row have failed.
pub open spec fn after_failures(s: PagerView, count: nat) -> PagerView
    decreases count,
{
    if count == 0 {
        s
    } else {
        after_failures(step_of(s, Outcome::Failed).0, (count - 1) as nat)
    }
}

/// A result page that fails every time it is asked for is given up once its
/// attempts are used up, and the pager has then turned to the page behind
/// it, or has ended behind the last page: one page that cannot be had does
/// not stop the run.
pub proof fn lemma_persistent_failure(s: PagerView)
    requires
        well_formed(s),
        s.phase == Phase::Paging,
    ensures
        after_failures(s, (attempts_allowed(s) - s.attempts) as nat) == advance_of(given_up(s)).0,
    decreases attempts_allowed(s) - s.attempts,
{
    let left = (attempts_allowed(s) - s.attempts) as nat;
    let next = step_of(s, Outcome::Failed).0;
    assert(after_failures(s, left) == after_failures(next, (left - 1) as nat));
    if can_retry(s) {
        lemma_persistent_failure(next);
    }
}

} // verus!
