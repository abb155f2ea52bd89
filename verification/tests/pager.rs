use astor_scraper::pager::{Outcome, Pager, Phase, Request};

fn paging(page: u32, last_page: u32, attempts: u32, max_attempts: u32) -> Pager {
    Pager { max_attempts, phase: Phase::Paging, page, last_page, attempts, failed_pages: Vec::new() }
}

fn state(pager: &Pager) -> (Phase, u32, u32, u32, Vec<u32>) {
    (pager.phase, pager.page, pager.last_page, pager.attempts, pager.failed_pages.clone())
}

#[test]
fn pager_begins_by_asking_for_the_search_page() {
    let (pager, first) = Pager::new(2);
    assert_eq!(first, Request::Search);
    assert_eq!(state(&pager), (Phase::Counting, 0, 0, 0, vec![]));
    assert_eq!(pager.max_attempts, 2);
}

#[test]
fn count_starts_paging_at_page_one() {
    let (mut pager, _) = Pager::new(2);
    assert_eq!(pager.step(Outcome::Counted(3)), Request::Page(1));
    assert_eq!(state(&pager), (Phase::Paging, 1, 3, 0, vec![]));
}

#[test]
fn count_of_zero_stands_for_a_single_page() {
    let (mut pager, _) = Pager::new(2);
    assert_eq!(pager.step(Outcome::Counted(0)), Request::Page(1));
    assert_eq!(state(&pager), (Phase::Paging, 1, 1, 0, vec![]));
}

#[test]
fn page_without_count_stands_for_a_single_page() {
    let (mut pager, _) = Pager::new(2);
    assert_eq!(pager.step(Outcome::Loaded), Request::Page(1));
    assert_eq!(state(&pager), (Phase::Paging, 1, 1, 0, vec![]));
}

#[test]
fn search_page_is_asked_for_again_until_the_attempts_are_used_up() {
    let (mut pager, _) = Pager::new(3);
    assert_eq!(pager.step(Outcome::Failed), Request::Search);
    assert_eq!(state(&pager), (Phase::Counting, 0, 0, 1, vec![]));
    assert_eq!(pager.step(Outcome::Failed), Request::Search);
    assert_eq!(state(&pager), (Phase::Counting, 0, 0, 2, vec![]));
    assert_eq!(pager.step(Outcome::Failed), Request::Page(1));
    assert_eq!(state(&pager), (Phase::Paging, 1, 1, 0, vec![]));
}

#[test]
fn search_page_that_cannot_be_asked_for_ends_the_run() {
    let (mut pager, _) = Pager::new(3);
    assert_eq!(pager.step(Outcome::Unreachable), Request::Finish);
    assert_eq!(state(&pager), (Phase::Finished, 0, 0, 0, vec![]));
}

#[test]
fn loaded_page_leads_to_the_next_page() {
    let mut pager = paging(1, 3, 1, 2);
    assert_eq!(pager.step(Outcome::Loaded), Request::Page(2));
    assert_eq!(state(&pager), (Phase::Paging, 2, 3, 0, vec![]));
    assert_eq!(pager.step(Outcome::Loaded), Request::Page(3));
    assert_eq!(pager.step(Outcome::Loaded), Request::Finish);
    assert_eq!(state(&pager), (Phase::Finished, 3, 3, 0, vec![]));
}

#[test]
fn count_reported_while_paging_does_not_change_the_last_page() {
    let mut pager = paging(2, 3, 0, 2);
    assert_eq!(pager.step(Outcome::Counted(9)), Request::Page(3));
    assert_eq!(state(&pager), (Phase::Paging, 3, 3, 0, vec![]));
    assert_eq!(pager.step(Outcome::Counted(9)), Request::Finish);
}

#[test]
fn failed_page_is_asked_for_again() {
    let mut pager = paging(2, 3, 0, 2);
    assert_eq!(pager.step(Outcome::Failed), Request::Page(2));
    assert_eq!(state(&pager), (Phase::Paging, 2, 3, 1, vec![]));
}

#[test]
fn page_that_failed_for_the_last_time_is_given_up() {
    let mut pager = paging(2, 3, 1, 2);
    assert_eq!(pager.step(Outcome::Failed), Request::Page(3));
    assert_eq!(state(&pager), (Phase::Paging, 3, 3, 0, vec![2]));
    assert_eq!(pager.step(Outcome::Failed), Request::Page(3));
    assert_eq!(pager.step(Outcome::Failed), Request::Finish);
    assert_eq!(state(&pager), (Phase::Finished, 3, 3, 0, vec![2, 3]));
}

#[test]
fn page_that_cannot_be_asked_for_is_given_up_and_ends_the_run() {
    let mut pager = paging(2, 5, 0, 4);
    assert_eq!(pager.step(Outcome::Unreachable), Request::Finish);
    assert_eq!(state(&pager), (Phase::Finished, 2, 5, 0, vec![2]));
}

#[test]
fn no_attempts_and_one_attempt_are_the_same() {
    for max_attempts in [0u32, 1] {
        let mut pager = paging(1, 2, 0, max_attempts);
        assert_eq!(pager.step(Outcome::Failed), Request::Page(2));
        assert_eq!(state(&pager), (Phase::Paging, 2, 2, 0, vec![1]));
    }
}

#[test]
fn finished_pager_stays_as_it_is() {
    let mut pager = paging(3, 3, 0, 2);
    assert_eq!(pager.step(Outcome::Loaded), Request::Finish);
    let before = state(&pager);
    for outcome in [Outcome::Counted(7), Outcome::Loaded, Outcome::Failed, Outcome::Unreachable] {
        assert_eq!(pager.step(outcome), Request::Finish);
        assert_eq!(state(&pager), before);
    }
}

#[test]
fn last_page_of_the_largest_count_is_reached_without_overflow() {
    let mut pager = paging(u32::MAX - 1, u32::MAX, 0, u32::MAX);
    assert_eq!(pager.step(Outcome::Loaded), Request::Page(u32::MAX));
    assert_eq!(pager.step(Outcome::Loaded), Request::Finish);
    let mut retrying = paging(1, 1, u32::MAX - 2, u32::MAX);
    assert_eq!(retrying.step(Outcome::Failed), Request::Page(1));
    assert_eq!(retrying.attempts, u32::MAX - 1);
    assert_eq!(retrying.step(Outcome::Failed), Request::Finish);
    assert_eq!(retrying.failed_pages, vec![1]);
}

#[test]
fn run_of_any_outcomes_ends_within_the_bound_on_requests() {
    let outcomes = [Outcome::Failed, Outcome::Loaded, Outcome::Failed, Outcome::Failed, Outcome::Counted(4)];
    for max_attempts in 0u32..4 {
        for shift in 0..outcomes.len() {
            let (mut pager, mut request) = Pager::new(max_attempts);
            let mut steps = 0usize;
            let mut last_asked = 0u32;
            while request != Request::Finish {
                if let Request::Page(p) = request {
                    assert!(p == last_asked || p == last_asked + 1);
                    last_asked = p;
                }
                request = pager.step(outcomes[(steps + shift) % outcomes.len()]);
                steps += 1;
                assert!(steps <= 100);
            }
            assert_eq!(pager.phase, Phase::Finished);
        }
    }
}
