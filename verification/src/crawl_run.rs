//! Whole runs of the crawl engine: what holds after every sequence of
//! reports, whatever the network answers and whenever it does.

use vstd::prelude::*;
use crate::engine::{
    keeps_distance, lemma_pages_saved_on_page_only, lemma_steps_finished,
    lemma_steps_keep_delays, lemma_steps_keep_distance, lemma_steps_keep_seen,
    lemma_steps_keep_session, page_failed, page_fetched, robots_answered, started, woken,
    CrawlEngineView, EngineActionView, EnginePhase,
};
use crate::check_robots::RobotsFetchResultView;
use crate::fetch::FetchedPageView;
use crate::frontier::{facts_of, lemma_saved_keeps_seen};
use crate::politeness::lemma_delays_follow_policies;

verus! {

/// What a caller can report to the engine.
pub enum EngineEvent {
    /// The session begins or is taken up again, with these seeds.
    Start { seeds: Seq<Seq<char>> },
    /// The answer to a request for robots.txt, or nothing.
    Robots { answer: Option<(u16, Seq<char>)> },
    /// A pause is over.
    Wake,
    /// A page was fetched.
    Page { page: FetchedPageView },
    /// The fetch of a page failed.
    PageFailed,
}

/// A report with the time at which it is made.
pub struct Report {
    pub event: EngineEvent,
    pub now: u64,
}

/// The engine after a report, and what it asks for.
pub open spec fn step(s: CrawlEngineView, r: Report) -> (CrawlEngineView, EngineActionView) {
    match r.event {
        EngineEvent::Start { seeds } => started(s, seeds, r.now),
        EngineEvent::Robots { answer } => robots_answered(s, answer, r.now),
        EngineEvent::Wake => woken(s, r.now),
        EngineEvent::Page { page } => page_fetched(s, page, r.now),
        EngineEvent::PageFailed => page_failed(s, r.now),
    }
}

/// The engine after a sequence of reports.
pub open spec fn state_after(s: CrawlEngineView, reports: Seq<Report>) -> CrawlEngineView
    decreases reports.len(),
{
    if reports.len() == 0 {
        s
    } else {
        step(state_after(s, reports.drop_last()), reports.last()).0
    }
}

/// What the engine asks for after report `i` of a run from `s`.
pub open spec fn action_of(s: CrawlEngineView, reports: Seq<Report>, i: int) -> EngineActionView {
    step(state_after(s, reports.take(i)), reports[i]).1
}

/// Tells whether an action asks for a page of `host`.
pub open spec fn asks_page_of(action: EngineActionView, host: Seq<char>) -> bool {
    action matches EngineActionView::FetchPage { url } && url.host == Some(host)
}

/// The state after one more report is the step from the state before.
pub proof fn lemma_state_unfold(s: CrawlEngineView, reports: Seq<Report>, k: int)
    requires
        0 <= k < reports.len(),
    ensures
        state_after(s, reports.take(k + 1)) == step(state_after(s, reports.take(k)), reports[k]).0,
{
    assert(reports.take(k + 1).drop_last() == reports.take(k));
    assert(reports.take(k + 1).last() == reports[k]);
}

/// Every report is a step that keeps the pause of every host, and that
/// keeps the pauses at the crawl delays of the policies.
pub proof fn lemma_step_is_polite(s: CrawlEngineView, r: Report)
    ensures
        keeps_distance(s.politeness, step(s, r).0.politeness, Some(step(s, r).1), r.now),
        s.politeness.delays_follow_policies() ==> step(
            s,
            r,
        ).0.politeness.delays_follow_policies(),
{
    let seeds = match r.event {
        EngineEvent::Start { seeds } => seeds,
        _ => Seq::empty(),
    };
    let answer = match r.event {
        EngineEvent::Robots { answer } => answer,
        _ => None,
    };
    let page = match r.event {
        EngineEvent::Page { page } => page,
        _ => arbitrary(),
    };
    lemma_steps_keep_distance(s, seeds, answer, page, r.now);
    if s.politeness.delays_follow_policies() {
        lemma_steps_keep_delays(s, seeds, answer, page, facts_of(page.html_content), r.now);
    }
}

/// In every state that a run reaches, the pause of a host is the crawl
/// delay that its robots.txt policy asks of every user agent.
pub proof fn lemma_run_keeps_delays(s: CrawlEngineView, reports: Seq<Report>)
    requires
        s.politeness.delays_follow_policies(),
    ensures
        state_after(s, reports).politeness.delays_follow_policies(),
    decreases reports.len(),
{
    if reports.len() > 0 {
        lemma_run_keeps_delays(s, reports.drop_last());
        lemma_step_is_polite(state_after(s, reports.drop_last()), reports.last());
    }
}

/// After a request for a page of a host, the time of the request stays
/// noted for the host until the next request for a page of the host.
pub proof fn lemma_last_request_stays(
    s: CrawlEngineView,
    reports: Seq<Report>,
    i: int,
    k: int,
    host: Seq<char>,
)
    requires
        0 <= i < k <= reports.len(),
        asks_page_of(action_of(s, reports, i), host),
        forall|m: int| i < m < k ==> !asks_page_of(#[trigger] action_of(s, reports, m), host),
    ensures
        state_after(s, reports.take(k)).politeness.last_fetch.contains_key(host),
        state_after(s, reports.take(k)).politeness.last_fetch[host] == reports[i].now,
    decreases k - i,
{
    let before = state_after(s, reports.take(k - 1));
    lemma_state_unfold(s, reports, k - 1);
    lemma_step_is_polite(before, reports[k - 1]);
    if k - 1 > i {
        lemma_last_request_stays(s, reports, i, k - 1, host);
        assert(!asks_page_of(action_of(s, reports, k - 1), host));
    }
}

/// In every run of the engine, whatever is reported and whenever, two
/// requests for pages of one host with no request for a page of the host
/// between them lie at least the pause of the host apart; and the pause is
/// the crawl delay that the robots.txt policy of the host asks of every
/// user agent, as far as the policy is known at the later request.
pub proof fn lemma_run_keeps_distance(
    s: CrawlEngineView,
    reports: Seq<Report>,
    i: int,
    j: int,
    host: Seq<char>,
)
    requires
        s.politeness.delays_follow_policies(),
        0 <= i < j < reports.len(),
        asks_page_of(action_of(s, reports, i), host),
        asks_page_of(action_of(s, reports, j), host),
        forall|m: int| i < m < j ==> !asks_page_of(#[trigger] action_of(s, reports, m), host),
    ensures
        ({
            let p = state_after(s, reports.take(j + 1)).politeness;
            &&& reports[j].now - reports[i].now >= p.delay_of(host)
            &&& p.delay_of(host) == if p.robots.contains_key(host) {
                p.robots[host].default_delay()
            } else {
                0
            }
        }),
{
    let before = state_after(s, reports.take(j));
    lemma_last_request_stays(s, reports, i, j, host);
    lemma_state_unfold(s, reports, j);
    lemma_step_is_polite(before, reports[j]);
    lemma_run_keeps_delays(s, reports.take(j + 1));
    let p = state_after(s, reports.take(j + 1)).politeness;
    lemma_delays_follow_policies(p, host, RobotsFetchResultView::NotFound, 0);
}

/// In every run of the engine a URL that was seen stays seen: no report,
/// and no taking up of the session again, loses a page that was saved.
pub proof fn lemma_run_keeps_seen(s: CrawlEngineView, reports: Seq<Report>, url: Seq<char>)
    requires
        s.store.has_page(url),
    ensures
        state_after(s, reports).store.has_page(url),
    decreases reports.len(),
{
    if reports.len() > 0 {
        lemma_run_keeps_seen(s, reports.drop_last(), url);
        let before = state_after(s, reports.drop_last());
        let r = reports.last();
        let seeds = match r.event {
            EngineEvent::Start { seeds } => seeds,
            _ => Seq::empty(),
        };
        let answer = match r.event {
            EngineEvent::Robots { answer } => answer,
            _ => None,
        };
        let page = match r.event {
            EngineEvent::Page { page } => page,
            _ => arbitrary(),
        };
        lemma_steps_keep_seen(before, seeds, answer, page, r.now, url);
    }
}

/// A run that ends with the engine saying that it has finished, be it the
/// first run of a session or one that takes it up again, leaves no entry of
/// the session pending and has every page that was saved before it or
/// during it: a page that was reported while the engine waited for one is
/// seen at the end.
pub proof fn lemma_finished_run(s: CrawlEngineView, reports: Seq<Report>, k: int)
    requires
        reports.len() > 0,
        action_of(s, reports, reports.len() - 1) is Finished,
        0 <= k < reports.len(),
        reports[k].event is Page,
        state_after(s, reports.take(k)).phase == EnginePhase::AwaitingPage,
    ensures
        forall|i: int| !state_after(s, reports).store.eligible(i),
        state_after(s, reports).store.has_page(reports[k].event->page.url.href),
{
    let last = reports.len() - 1;
    let before = state_after(s, reports.take(last));
    let r = reports[last];
    lemma_state_unfold(s, reports, last);
    assert(reports.take(last + 1) == reports);
    let seeds = match r.event {
        EngineEvent::Start { seeds } => seeds,
        _ => Seq::empty(),
    };
    let answer = match r.event {
        EngineEvent::Robots { answer } => answer,
        _ => None,
    };
    let page = match r.event {
        EngineEvent::Page { page } => page,
        _ => arbitrary(),
    };
    lemma_steps_finished(before, seeds, answer, page, r.now);
    // The page of report `k` is saved by its step and stays saved.
    let held = state_after(s, reports.take(k));
    let shown = reports[k].event->page;
    lemma_state_unfold(s, reports, k);
    lemma_pages_saved_on_page_only(held, Seq::empty(), None, shown, reports[k].now);
    lemma_saved_keeps_seen(held.store, shown, facts_of(shown.html_content), shown.url.href);
    lemma_step_keeps_session(held, reports[k]);
    let reached = state_after(s, reports.take(k + 1));
    assert(reached.store.has_page(shown.url.href));
    let rest = reports.skip(k + 1);
    lemma_run_splits(s, reports, k + 1);
    lemma_run_keeps_seen(reached, rest, shown.url.href);
}

/// A step keeps the session of the store.
pub proof fn lemma_step_keeps_session(s: CrawlEngineView, r: Report)
    ensures
        step(s, r).0.store.session_id == s.store.session_id,
{
    let seeds = match r.event {
        EngineEvent::Start { seeds } => seeds,
        _ => Seq::empty(),
    };
    let answer = match r.event {
        EngineEvent::Robots { answer } => answer,
        _ => None,
    };
    let page = match r.event {
        EngineEvent::Page { page } => page,
        _ => arbitrary(),
    };
    lemma_steps_keep_session(s, seeds, answer, page, r.now);
}

/// A run is the run of its first reports followed by the run of the rest.
pub proof fn lemma_run_splits(s: CrawlEngineView, reports: Seq<Report>, k: int)
    requires
        0 <= k <= reports.len(),
    ensures
        state_after(s, reports) == state_after(state_after(s, reports.take(k)), reports.skip(k)),
    decreases reports.len(),
{
    if k == reports.len() {
        assert(reports.take(k) == reports);
        assert(reports.skip(k).len() == 0);
    } else {
        let shorter = reports.drop_last();
        lemma_run_splits(s, shorter, k);
        assert(shorter.take(k) == reports.take(k));
        assert(shorter.skip(k) == reports.skip(k).drop_last());
        assert(reports.skip(k).last() == reports.last());
    }
}

} // verus!
