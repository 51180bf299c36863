//! The crawl engine: the decisions of a crawl session. The engine owns the
//! frontier store and the politeness scheduler and says what to do next;
//! the caller fetches, sleeps and reports back.

use vstd::prelude::*;
use crate::check_robots::{policy_of, Robot, RobotsFetchResult, RobotsFetchResultView};
use crate::check_robots::parse::parse_robots;
use crate::extract_links::{
    extracted, links_of_class, ExtractLinks, LinkClass, LinkInfo, LinkInfoView,
};
use crate::fetch::{FetchedPage, FetchedPageView};
use crate::frontier::{
    enqueued, facts_of, lemma_enqueued, lemma_enqueued_keeps_rest,
    lemma_nothing_pending_without_next, lemma_pending_after_take, lemma_recovered,
    lemma_saved_keeps_seen, recovered, saved, saved_with, EntryStatus, FrontierEntryView,
    FrontierStore, FrontierStoreView, PageFacts, PageFactsView, StoreError,
};
use crate::politeness::{
    lemma_delays_follow_policies, no_hosts, robots_url, robots_url_of, Politeness, PolitenessView,
};
use crate::web_url::{url_parse, WebUrl, WebUrlView};

verus! {

/// Where a crawl session stands.
#[derive(Debug, Clone, Copy, PartialEq, Eq, Structural)]
pub enum SessionStatus {
    Running,
    Paused,
    Finished,
    Failed,
}

/// A crawl session: the unit that can be interrupted and taken up again.
#[derive(Debug)]
pub struct CrawlSession {
    pub id: i64,
    pub start_url: String,
    pub status: SessionStatus,
    pub pages_crawled: u64,
    pub errors_encountered: u64,
    /// When the session was created, in milliseconds of the caller's clock.
    pub created_at: u64,
}

/// The mathematical value of a [`CrawlSession`].
pub struct CrawlSessionView {
    pub id: i64,
    pub start_url: Seq<char>,
    pub status: SessionStatus,
    pub pages_crawled: u64,
    pub errors_encountered: u64,
    pub created_at: u64,
}

impl View for CrawlSession {
    type V = CrawlSessionView;

    open spec fn view(&self) -> CrawlSessionView {
        CrawlSessionView {
            id: self.id,
            start_url: self.start_url@,
            status: self.status,
            pages_crawled: self.pages_crawled,
            errors_encountered: self.errors_encountered,
            created_at: self.created_at,
        }
    }
}

/// What the engine is waiting for.
#[derive(Debug, Clone, Copy, PartialEq, Eq, Structural)]
pub enum EnginePhase {
    /// Nothing: the engine has not started or is between two URLs.
    Idle,
    /// The robots.txt file of the host of the URL in hand.
    AwaitingRobots,
    /// The end of a politeness pause.
    AwaitingWake,
    /// The outcome of the fetch of the URL in hand.
    AwaitingPage,
    /// Nothing any more: the frontier is empty.
    Finished,
    /// Nothing any more: the store refused an operation.
    Failed,
}

/// What the caller does next.
#[derive(Debug)]
pub enum EngineAction {
    /// Request the robots.txt file at `robots_url` and report with
    /// `on_robots`.
    FetchRobots { robots_url: String },
    /// Sleep for `millis` milliseconds and report with `on_wake`.
    Sleep { millis: u64 },
    /// Fetch the page at `url` and report with `on_page` or
    /// `on_page_failed`.
    FetchPage { url: WebUrl },
    /// Stop: the frontier is empty.
    Finished,
    /// Stop: the store refused an operation. The session can be taken up
    /// again.
    Fatal { error: StoreError },
    /// Nothing: the report did not answer what the engine had asked for,
    /// and was ignored.
    Unexpected,
}

/// The mathematical value of an [`EngineAction`].
pub enum EngineActionView {
    FetchRobots { robots_url: Seq<char> },
    Sleep { millis: u64 },
    FetchPage { url: WebUrlView },
    Finished,
    Fatal { error: StoreError },
    Unexpected,
}

impl View for EngineAction {
    type V = EngineActionView;

    open spec fn view(&self) -> EngineActionView {
        match self {
            EngineAction::FetchRobots { robots_url } => EngineActionView::FetchRobots {
                robots_url: robots_url@,
            },
            EngineAction::Sleep { millis } => EngineActionView::Sleep { millis: *millis },
            EngineAction::FetchPage { url } => EngineActionView::FetchPage { url: url@ },
            EngineAction::Finished => EngineActionView::Finished,
            EngineAction::Fatal { error } => EngineActionView::Fatal { error: *error },
            EngineAction::Unexpected => EngineActionView::Unexpected,
        }
    }
}

impl DeepView for EngineAction {
    type V = EngineActionView;

    open spec fn deep_view(&self) -> EngineActionView {
        self@
    }
}

/// The mathematical value of a [`CrawlEngine`].
pub struct CrawlEngineView {
    pub session: CrawlSessionView,
    pub user_agent: Seq<char>,
    pub store: FrontierStoreView,
    pub politeness: PolitenessView,
    /// The URL in hand.
    pub current: Option<WebUrlView>,
    pub phase: EnginePhase,
}

/// One more, as far as the number can count.
pub open spec fn bump(n: u64) -> u64 {
    if n < u64::MAX {
        (n + 1) as u64
    } else {
        n
    }
}

/// The targets of links.
pub open spec fn link_urls(links: Seq<LinkInfoView>) -> Seq<Seq<char>> {
    Seq::new(links.len(), |i: int| links[i].url)
}

impl CrawlEngineView {
    /// The engine with no URL in hand.
    pub open spec fn idle(self) -> CrawlEngineView {
        CrawlEngineView { current: None, phase: EnginePhase::Idle, ..self }
    }

    /// The engine after a URL failed.
    pub open spec fn with_error(self) -> CrawlEngineView {
        CrawlEngineView {
            session: CrawlSessionView {
                errors_encountered: bump(self.session.errors_encountered),
                ..self.session
            },
            ..self
        }
    }

    /// The engine with `url` in hand and waiting.
    pub open spec fn holding(self, url: WebUrlView, phase: EnginePhase) -> CrawlEngineView {
        CrawlEngineView { current: Some(url), phase, ..self }
    }

    /// The engine after the session ended in `status`.
    pub open spec fn ended(self, status: SessionStatus, phase: EnginePhase) -> CrawlEngineView {
        CrawlEngineView {
            session: CrawlSessionView { status, ..self.session },
            current: None,
            phase,
            ..self
        }
    }
}

/// The last steps before a fetch of `url` on `host`: sleep if the host is
/// not yet to be asked again; pass over a URL that was saved already;
/// else note the time and fetch. No action means that the URL is passed
/// over.
pub open spec fn wait_or_fetch(s: CrawlEngineView, url: WebUrlView, host: Seq<char>, now: u64) -> (
    CrawlEngineView,
    Option<EngineActionView>,
) {
    let wait = s.politeness.wait_needed(host, now);
    if wait > 0 {
        (s.holding(url, EnginePhase::AwaitingWake), Some(EngineActionView::Sleep { millis: wait }))
    } else if s.store.has_page(url.href) {
        (s.idle(), None)
    } else {
        (
            CrawlEngineView {
                politeness: s.politeness.recorded(host, now),
                ..s.holding(url, EnginePhase::AwaitingPage)
            },
            Some(EngineActionView::FetchPage { url }),
        )
    }
}

/// The steps for a URL whose host has a known robots.txt policy: pass it
/// over if the operator or the policy forbids it, else go on to the fetch.
pub open spec fn check_and_go(s: CrawlEngineView, url: WebUrlView, host: Seq<char>, now: u64) -> (
    CrawlEngineView,
    Option<EngineActionView>,
) {
    let (store, allowed) = s.store.policy_checked(host);
    let asked = CrawlEngineView { store, ..s };
    if !allowed {
        (asked.idle(), None)
    } else if !asked.politeness.permits(host, url.path, s.user_agent) {
        (asked.idle(), None)
    } else {
        wait_or_fetch(asked, url, host, now)
    }
}

/// The engine after it looked up the robots.txt file that the store keeps
/// for `host`, if the policy of the host is not known yet.
pub open spec fn with_known_robots(s: CrawlEngineView, host: Seq<char>) -> CrawlEngineView {
    if s.politeness.robots.contains_key(host) {
        s
    } else {
        match s.store.robots_text(host) {
            Some(text) => CrawlEngineView {
                politeness: s.politeness.installed(
                    host,
                    RobotsFetchResultView::Success(parse_robots(text)),
                ),
                ..s
            },
            None => s,
        }
    }
}

/// The steps for a URL that was handed out: a URL without host fails; a
/// host whose policy is unknown is asked for its robots.txt file first.
pub open spec fn consider(s: CrawlEngineView, url: WebUrlView, now: u64) -> (
    CrawlEngineView,
    Option<EngineActionView>,
) {
    match url.host {
        None => (s.with_error().idle(), None),
        Some(host) => {
            let known = with_known_robots(s, host);
            if known.politeness.robots.contains_key(host) {
                check_and_go(known, url, host, now)
            } else {
                (
                    known.holding(url, EnginePhase::AwaitingRobots),
                    Some(EngineActionView::FetchRobots { robots_url: robots_url_of(url)->0 }),
                )
            }
        },
    }
}

/// Deciding on a URL leaves the queue as it is.
pub proof fn lemma_consider_keeps_queue(s: CrawlEngineView, url: WebUrlView, now: u64)
    ensures
        consider(s, url, now).0.store.entries == s.store.entries,
        consider(s, url, now).0.store.session_id == s.store.session_id,
        consider(s, url, now).0.store.pages == s.store.pages,
        consider(s, url, now).0.store.links == s.store.links,
{
}

/// The engine takes URLs from the queue until one calls for an action or
/// the queue is empty. A URL that is no URL fails and is passed over.
pub open spec fn advance(s: CrawlEngineView, now: u64) -> (CrawlEngineView, EngineActionView)
    decreases s.store.pending_count(),
{
    match s.store.next_index() {
        None => (
            s.ended(SessionStatus::Finished, EnginePhase::Finished),
            EngineActionView::Finished,
        ),
        Some(i) => {
            let taken = CrawlEngineView {
                store: s.store.with_status(i, EntryStatus::Processing),
                ..s
            };
            let next = match url_parse(s.store.entries[i].url) {
                None => (taken.with_error().idle(), None),
                Some(url) => consider(taken, url, now),
            };
            match next.1 {
                Some(action) => (next.0, action),
                None => {
                    proof {
                        assert(s.store.is_next(i));
                        lemma_pending_after_take(s.store.entries, s.store.session_id, i);
                        if url_parse(s.store.entries[i].url) is Some {
                            lemma_consider_keeps_queue(
                                taken,
                                url_parse(s.store.entries[i].url)->0,
                                now,
                            );
                        }
                    }
                    advance(next.0, now)
                },
            }
        },
    }
}

/// The engine at the start of a run with the given seeds: what was being
/// processed when an earlier run ended is pending again, the seeds are
/// queued, and the first URL is taken up.
pub open spec fn started(s: CrawlEngineView, seeds: Seq<Seq<char>>, now: u64) -> (
    CrawlEngineView,
    EngineActionView,
) {
    advance(
        CrawlEngineView {
            session: CrawlSessionView { status: SessionStatus::Running, ..s.session },
            store: enqueued(recovered(s.store), seeds),
            ..s.idle()
        },
        now,
    )
}

/// The engine after the answer to a request for robots.txt: status code
/// and body, or nothing if no answer came.
pub open spec fn robots_answered(s: CrawlEngineView, answer: Option<(u16, Seq<char>)>, now: u64) -> (
    CrawlEngineView,
    EngineActionView,
) {
    if s.phase == EnginePhase::AwaitingRobots && s.current is Some && s.current->0.host is Some {
        let url = s.current->0;
        let host = url.host->0;
        let policy = match answer {
            Some((status, body)) => policy_of(status, body),
            None => RobotsFetchResultView::Unavailable,
        };
        let store = match answer {
            Some((status, body)) => if status == 200 {
                s.store.with_robots_text(host, Some(body), now)
            } else {
                s.store
            },
            None => s.store,
        };
        let informed = CrawlEngineView {
            politeness: s.politeness.installed(host, policy),
            store,
            ..s
        };
        let next = check_and_go(informed, url, host, now);
        match next.1 {
            Some(action) => (next.0, action),
            None => advance(next.0, now),
        }
    } else {
        (s, EngineActionView::Unexpected)
    }
}

/// The engine after a politeness pause.
pub open spec fn woken(s: CrawlEngineView, now: u64) -> (CrawlEngineView, EngineActionView) {
    if s.phase == EnginePhase::AwaitingWake && s.current is Some && s.current->0.host is Some {
        let next = wait_or_fetch(s, s.current->0, s.current->0.host->0, now);
        match next.1 {
            Some(action) => (next.0, action),
            None => advance(next.0, now),
        }
    } else {
        (s, EngineActionView::Unexpected)
    }
}

/// The engine after a page was fetched, with what was read out of its
/// body: the page is saved, then its queue entry is marked as visited, then
/// its internal and external links are queued, and the next URL is taken
/// up. If the entry cannot be marked the session fails.
pub open spec fn page_fetched_with(
    s: CrawlEngineView,
    page: FetchedPageView,
    facts: PageFactsView,
    now: u64,
) -> (CrawlEngineView, EngineActionView) {
    if s.phase == EnginePhase::AwaitingPage {
        let kept = saved_with(s.store, page, facts);
        match kept.visited(page.url.href) {
            Err(error) => (
                CrawlEngineView { store: kept, ..s }.ended(
                    SessionStatus::Failed,
                    EnginePhase::Failed,
                ),
                EngineActionView::Fatal { error },
            ),
            Ok(marked) => {
                let links = extracted(page.url, facts.anchors);
                let found = link_urls(links.internal) + link_urls(links.external);
                advance(
                    CrawlEngineView {
                        store: enqueued(marked, found),
                        session: CrawlSessionView {
                            pages_crawled: bump(s.session.pages_crawled),
                            ..s.session
                        },
                        ..s.idle()
                    },
                    now,
                )
            },
        }
    } else {
        (s, EngineActionView::Unexpected)
    }
}

/// The engine after a page was fetched.
pub open spec fn page_fetched(s: CrawlEngineView, page: FetchedPageView, now: u64) -> (
    CrawlEngineView,
    EngineActionView,
) {
    page_fetched_with(s, page, facts_of(page.html_content), now)
}

/// The engine after a fetch failed: the failure is counted and the next URL
/// is taken up.
pub open spec fn page_failed(s: CrawlEngineView, now: u64) -> (CrawlEngineView, EngineActionView) {
    if s.phase == EnginePhase::AwaitingPage {
        advance(s.with_error().idle(), now)
    } else {
        (s, EngineActionView::Unexpected)
    }
}

/// Tells whether a step of the engine at time `now` kept the pause of every
/// host: if the step asks for a page, the host of the page was last asked
/// at least its pause ago, and `now` is noted as the time of the request;
/// any other step leaves the noted times alone.
pub open spec fn keeps_distance(
    before: PolitenessView,
    after: PolitenessView,
    action: Option<EngineActionView>,
    now: u64,
) -> bool {
    match action {
        Some(EngineActionView::FetchPage { url }) => {
            &&& url.host is Some
            &&& after.last_fetch == before.last_fetch.insert(url.host->0, now)
            &&& before.last_fetch.contains_key(url.host->0) ==> now - before.last_fetch[url.host->0]
                >= after.delay_of(url.host->0)
        },
        _ => after.last_fetch == before.last_fetch,
    }
}

/// Deciding on a URL keeps the pause of every host.
pub proof fn lemma_consider_keeps_distance(s: CrawlEngineView, url: WebUrlView, now: u64)
    ensures
        keeps_distance(s.politeness, consider(s, url, now).0.politeness, consider(s, url, now).1, now),
        url.host is Some ==> keeps_distance(
            s.politeness,
            check_and_go(s, url, url.host->0, now).0.politeness,
            check_and_go(s, url, url.host->0, now).1,
            now,
        ),
        url.host is Some ==> keeps_distance(
            s.politeness,
            wait_or_fetch(s, url, url.host->0, now).0.politeness,
            wait_or_fetch(s, url, url.host->0, now).1,
            now,
        ),
{
}

/// Taking URLs from the queue keeps the pause of every host.
pub proof fn lemma_advance_keeps_distance(s: CrawlEngineView, now: u64)
    ensures
        keeps_distance(s.politeness, advance(s, now).0.politeness, Some(advance(s, now).1), now),
    decreases s.store.pending_count(),
{
    match s.store.next_index() {
        None => {},
        Some(i) => {
            let taken = CrawlEngineView {
                store: s.store.with_status(i, EntryStatus::Processing),
                ..s
            };
            let next = match url_parse(s.store.entries[i].url) {
                None => (taken.with_error().idle(), None),
                Some(url) => consider(taken, url, now),
            };
            if let Some(url) = url_parse(s.store.entries[i].url) {
                lemma_consider_keeps_distance(taken, url, now);
                lemma_consider_keeps_queue(taken, url, now);
            }
            if next.1 is None {
                assert(s.store.is_next(i));
                lemma_pending_after_take(s.store.entries, s.store.session_id, i);
                lemma_advance_keeps_distance(next.0, now);
            }
        },
    }
}

/// Every step of the engine keeps the pause of every host: between two
/// requests for pages of one host at least the pause passes that the host
/// asks for.
pub proof fn lemma_steps_keep_distance(
    s: CrawlEngineView,
    seeds: Seq<Seq<char>>,
    answer: Option<(u16, Seq<char>)>,
    page: FetchedPageView,
    now: u64,
)
    ensures
        keeps_distance(
            s.politeness,
            started(s, seeds, now).0.politeness,
            Some(started(s, seeds, now).1),
            now,
        ),
        keeps_distance(
            s.politeness,
            robots_answered(s, answer, now).0.politeness,
            Some(robots_answered(s, answer, now).1),
            now,
        ),
        keeps_distance(s.politeness, woken(s, now).0.politeness, Some(woken(s, now).1), now),
        keeps_distance(
            s.politeness,
            page_fetched(s, page, now).0.politeness,
            Some(page_fetched(s, page, now).1),
            now,
        ),
        keeps_distance(
            s.politeness,
            page_failed(s, now).0.politeness,
            Some(page_failed(s, now).1),
            now,
        ),
{
    lemma_advance_keeps_distance(
        CrawlEngineView {
            session: CrawlSessionView { status: SessionStatus::Running, ..s.session },
            store: enqueued(recovered(s.store), seeds),
            ..s.idle()
        },
        now,
    );
    if s.phase == EnginePhase::AwaitingRobots && s.current is Some && s.current->0.host is Some {
        let url = s.current->0;
        let host = url.host->0;
        let policy = match answer {
            Some((status, body)) => policy_of(status, body),
            None => RobotsFetchResultView::Unavailable,
        };
        let store = match answer {
            Some((status, body)) => if status == 200 {
                s.store.with_robots_text(host, Some(body), now)
            } else {
                s.store
            },
            None => s.store,
        };
        let informed = CrawlEngineView {
            politeness: s.politeness.installed(host, policy),
            store,
            ..s
        };
        lemma_consider_keeps_distance(informed, url, now);
        let next = check_and_go(informed, url, host, now);
        if next.1 is None {
            lemma_advance_keeps_distance(next.0, now);
        }
    }
    if s.phase == EnginePhase::AwaitingWake && s.current is Some && s.current->0.host is Some {
        let url = s.current->0;
        lemma_consider_keeps_distance(s, url, now);
        let next = wait_or_fetch(s, url, url.host->0, now);
        if next.1 is None {
            lemma_advance_keeps_distance(next.0, now);
        }
    }
    if s.phase == EnginePhase::AwaitingPage {
        let kept = saved(s.store, page);
        if let Ok(marked) = kept.visited(page.url.href) {
            let links = extracted(page.url, facts_of(page.html_content).anchors);
            let found = link_urls(links.internal) + link_urls(links.external);
            lemma_advance_keeps_distance(
                CrawlEngineView {
                    store: enqueued(marked, found),
                    session: CrawlSessionView {
                        pages_crawled: bump(s.session.pages_crawled),
                        ..s.session
                    },
                    ..s.idle()
                },
                now,
            );
        }
        lemma_advance_keeps_distance(s.with_error().idle(), now);
    }
}

/// Deciding on a URL keeps the pause of every host at the crawl delay of
/// its robots.txt policy.
pub proof fn lemma_consider_keeps_delays(s: CrawlEngineView, url: WebUrlView, now: u64)
    requires
        s.politeness.delays_follow_policies(),
    ensures
        consider(s, url, now).0.politeness.delays_follow_policies(),
        url.host is Some ==> check_and_go(
            s,
            url,
            url.host->0,
            now,
        ).0.politeness.delays_follow_policies(),
        url.host is Some ==> wait_or_fetch(
            s,
            url,
            url.host->0,
            now,
        ).0.politeness.delays_follow_policies(),
{
    if let Some(host) = url.host {
        lemma_delays_follow_policies(s.politeness, host, RobotsFetchResultView::NotFound, now);
        let known = with_known_robots(s, host);
        if let Some(text) = s.store.robots_text(host) {
            lemma_delays_follow_policies(
                s.politeness,
                host,
                RobotsFetchResultView::Success(parse_robots(text)),
                now,
            );
        }
        lemma_delays_follow_policies(known.politeness, host, RobotsFetchResultView::NotFound, now);
    }
}

/// Taking URLs from the queue keeps the pause of every host at the crawl
/// delay of its robots.txt policy.
pub proof fn lemma_advance_keeps_delays(s: CrawlEngineView, now: u64)
    requires
        s.politeness.delays_follow_policies(),
    ensures
        advance(s, now).0.politeness.delays_follow_policies(),
    decreases s.store.pending_count(),
{
    match s.store.next_index() {
        None => {},
        Some(i) => {
            let taken = CrawlEngineView {
                store: s.store.with_status(i, EntryStatus::Processing),
                ..s
            };
            let next = match url_parse(s.store.entries[i].url) {
                None => (taken.with_error().idle(), None),
                Some(url) => consider(taken, url, now),
            };
            if let Some(url) = url_parse(s.store.entries[i].url) {
                lemma_consider_keeps_delays(taken, url, now);
                lemma_consider_keeps_queue(taken, url, now);
            }
            if next.1 is None {
                assert(s.store.is_next(i));
                lemma_pending_after_take(s.store.entries, s.store.session_id, i);
                lemma_advance_keeps_delays(next.0, now);
            }
        },
    }
}

/// In every state that the engine reaches, the pause of a host is the
/// crawl delay that its robots.txt policy asks of every user agent: a new
/// engine knows no host, and every step keeps the pauses at the crawl
/// delays. The pause that is kept between two requests to a host is
/// therefore the crawl delay itself.
pub proof fn lemma_steps_keep_delays(
    s: CrawlEngineView,
    seeds: Seq<Seq<char>>,
    answer: Option<(u16, Seq<char>)>,
    page: FetchedPageView,
    facts: PageFactsView,
    now: u64,
)
    requires
        s.politeness.delays_follow_policies(),
    ensures
        no_hosts().delays_follow_policies(),
        started(s, seeds, now).0.politeness.delays_follow_policies(),
        robots_answered(s, answer, now).0.politeness.delays_follow_policies(),
        woken(s, now).0.politeness.delays_follow_policies(),
        page_fetched_with(s, page, facts, now).0.politeness.delays_follow_policies(),
        page_fetched(s, page, now).0.politeness.delays_follow_policies(),
        page_failed(s, now).0.politeness.delays_follow_policies(),
{
    lemma_delays_follow_policies(s.politeness, Seq::empty(), RobotsFetchResultView::NotFound, now);
    lemma_advance_keeps_delays(
        CrawlEngineView {
            session: CrawlSessionView { status: SessionStatus::Running, ..s.session },
            store: enqueued(recovered(s.store), seeds),
            ..s.idle()
        },
        now,
    );
    if s.phase == EnginePhase::AwaitingRobots && s.current is Some && s.current->0.host is Some {
        let url = s.current->0;
        let host = url.host->0;
        let policy = match answer {
            Some((status, body)) => policy_of(status, body),
            None => RobotsFetchResultView::Unavailable,
        };
        let store = match answer {
            Some((status, body)) => if status == 200 {
                s.store.with_robots_text(host, Some(body), now)
            } else {
                s.store
            },
            None => s.store,
        };
        let informed = CrawlEngineView {
            politeness: s.politeness.installed(host, policy),
            store,
            ..s
        };
        lemma_delays_follow_policies(s.politeness, host, policy, now);
        lemma_consider_keeps_delays(informed, url, now);
        let next = check_and_go(informed, url, host, now);
        if next.1 is None {
            lemma_advance_keeps_delays(next.0, now);
        }
    }
    if s.phase == EnginePhase::AwaitingWake && s.current is Some && s.current->0.host is Some {
        let url = s.current->0;
        lemma_consider_keeps_delays(s, url, now);
        let next = wait_or_fetch(s, url, url.host->0, now);
        if next.1 is None {
            lemma_advance_keeps_delays(next.0, now);
        }
    }
    if s.phase == EnginePhase::AwaitingPage {
        let kept = saved_with(s.store, page, facts);
        if let Ok(marked) = kept.visited(page.url.href) {
            let links = extracted(page.url, facts.anchors);
            let found = link_urls(links.internal) + link_urls(links.external);
            lemma_advance_keeps_delays(
                CrawlEngineView {
                    store: enqueued(marked, found),
                    session: CrawlSessionView {
                        pages_crawled: bump(s.session.pages_crawled),
                        ..s.session
                    },
                    ..s.idle()
                },
                now,
            );
        }
        let read = facts_of(page.html_content);
        let kept2 = saved_with(s.store, page, read);
        if let Ok(marked) = kept2.visited(page.url.href) {
            let links = extracted(page.url, read.anchors);
            let found = link_urls(links.internal) + link_urls(links.external);
            lemma_advance_keeps_delays(
                CrawlEngineView {
                    store: enqueued(marked, found),
                    session: CrawlSessionView {
                        pages_crawled: bump(s.session.pages_crawled),
                        ..s.session
                    },
                    ..s.idle()
                },
                now,
            );
        }
        lemma_advance_keeps_delays(s.with_error().idle(), now);
    }
}

/// Taking URLs from the queue saves no page.
pub proof fn lemma_advance_keeps_pages(s: CrawlEngineView, now: u64)
    ensures
        advance(s, now).0.store.pages == s.store.pages,
        advance(s, now).0.store.links == s.store.links,
    decreases s.store.pending_count(),
{
    match s.store.next_index() {
        None => {},
        Some(i) => {
            let taken = CrawlEngineView {
                store: s.store.with_status(i, EntryStatus::Processing),
                ..s
            };
            let next = match url_parse(s.store.entries[i].url) {
                None => (taken.with_error().idle(), None),
                Some(url) => consider(taken, url, now),
            };
            if let Some(url) = url_parse(s.store.entries[i].url) {
                lemma_consider_keeps_queue(taken, url, now);
            }
            if next.1 is None {
                assert(s.store.is_next(i));
                lemma_pending_after_take(s.store.entries, s.store.session_id, i);
                lemma_advance_keeps_pages(next.0, now);
            }
        },
    }
}

/// Pages are saved by the step that takes in a fetched page, and by no
/// other: a URL is seen only after its page was handed to the engine, and
/// the links of a page are queued only after the page was saved.
pub proof fn lemma_pages_saved_on_page_only(
    s: CrawlEngineView,
    seeds: Seq<Seq<char>>,
    answer: Option<(u16, Seq<char>)>,
    page: FetchedPageView,
    now: u64,
)
    ensures
        started(s, seeds, now).0.store.pages == s.store.pages,
        robots_answered(s, answer, now).0.store.pages == s.store.pages,
        woken(s, now).0.store.pages == s.store.pages,
        page_failed(s, now).0.store.pages == s.store.pages,
        page_fetched(s, page, now).0.store.pages == if s.phase == EnginePhase::AwaitingPage {
            saved(s.store, page).pages
        } else {
            s.store.pages
        },
{
    lemma_enqueued_keeps_rest(recovered(s.store), seeds);
    lemma_advance_keeps_pages(
        CrawlEngineView {
            session: CrawlSessionView { status: SessionStatus::Running, ..s.session },
            store: enqueued(recovered(s.store), seeds),
            ..s.idle()
        },
        now,
    );
    if s.phase == EnginePhase::AwaitingRobots && s.current is Some && s.current->0.host is Some {
        let url = s.current->0;
        let host = url.host->0;
        let policy = match answer {
            Some((status, body)) => policy_of(status, body),
            None => RobotsFetchResultView::Unavailable,
        };
        let store = match answer {
            Some((status, body)) => if status == 200 {
                s.store.with_robots_text(host, Some(body), now)
            } else {
                s.store
            },
            None => s.store,
        };
        let informed = CrawlEngineView {
            politeness: s.politeness.installed(host, policy),
            store,
            ..s
        };
        let next = check_and_go(informed, url, host, now);
        if next.1 is None {
            lemma_advance_keeps_pages(next.0, now);
        }
    }
    if s.phase == EnginePhase::AwaitingWake && s.current is Some && s.current->0.host is Some {
        let url = s.current->0;
        let next = wait_or_fetch(s, url, url.host->0, now);
        if next.1 is None {
            lemma_advance_keeps_pages(next.0, now);
        }
    }
    if s.phase == EnginePhase::AwaitingPage {
        let kept = saved(s.store, page);
        if let Ok(marked) = kept.visited(page.url.href) {
            let links = extracted(page.url, facts_of(page.html_content).anchors);
            let found = link_urls(links.internal) + link_urls(links.external);
            lemma_enqueued_keeps_rest(marked, found);
            lemma_advance_keeps_pages(
                CrawlEngineView {
                    store: enqueued(marked, found),
                    session: CrawlSessionView {
                        pages_crawled: bump(s.session.pages_crawled),
                        ..s.session
                    },
                    ..s.idle()
                },
                now,
            );
        }
        lemma_advance_keeps_pages(s.with_error().idle(), now);
    }
}

/// When the engine says that it has finished, no entry of the session is
/// pending any more.
pub proof fn lemma_advance_finished(s: CrawlEngineView, now: u64)
    ensures
        advance(s, now).1 is Finished ==> forall|i: int| !advance(s, now).0.store.eligible(i),
    decreases s.store.pending_count(),
{
    match s.store.next_index() {
        None => {
            lemma_nothing_pending_without_next(s.store);
        },
        Some(i) => {
            let taken = CrawlEngineView {
                store: s.store.with_status(i, EntryStatus::Processing),
                ..s
            };
            let next = match url_parse(s.store.entries[i].url) {
                None => (taken.with_error().idle(), None),
                Some(url) => consider(taken, url, now),
            };
            if let Some(url) = url_parse(s.store.entries[i].url) {
                lemma_consider_keeps_queue(taken, url, now);
            }
            if next.1 is None {
                assert(s.store.is_next(i));
                lemma_pending_after_take(s.store.entries, s.store.session_id, i);
                lemma_advance_finished(next.0, now);
            }
        },
    }
}

/// Whatever step ends with the engine saying that it has finished, no
/// entry of the session is pending after it: every URL that was queued has
/// been handed out.
pub proof fn lemma_steps_finished(
    s: CrawlEngineView,
    seeds: Seq<Seq<char>>,
    answer: Option<(u16, Seq<char>)>,
    page: FetchedPageView,
    now: u64,
)
    ensures
        started(s, seeds, now).1 is Finished ==> forall|i: int|
            !started(s, seeds, now).0.store.eligible(i),
        robots_answered(s, answer, now).1 is Finished ==> forall|i: int|
            !robots_answered(s, answer, now).0.store.eligible(i),
        woken(s, now).1 is Finished ==> forall|i: int| !woken(s, now).0.store.eligible(i),
        page_fetched(s, page, now).1 is Finished ==> forall|i: int|
            !page_fetched(s, page, now).0.store.eligible(i),
        page_failed(s, now).1 is Finished ==> forall|i: int|
            !page_failed(s, now).0.store.eligible(i),
{
    lemma_advance_finished(
        CrawlEngineView {
            session: CrawlSessionView { status: SessionStatus::Running, ..s.session },
            store: enqueued(recovered(s.store), seeds),
            ..s.idle()
        },
        now,
    );
    if s.phase == EnginePhase::AwaitingRobots && s.current is Some && s.current->0.host is Some {
        let url = s.current->0;
        let host = url.host->0;
        let policy = match answer {
            Some((status, body)) => policy_of(status, body),
            None => RobotsFetchResultView::Unavailable,
        };
        let store = match answer {
            Some((status, body)) => if status == 200 {
                s.store.with_robots_text(host, Some(body), now)
            } else {
                s.store
            },
            None => s.store,
        };
        let informed = CrawlEngineView {
            politeness: s.politeness.installed(host, policy),
            store,
            ..s
        };
        let next = check_and_go(informed, url, host, now);
        if next.1 is None {
            lemma_advance_finished(next.0, now);
        }
    }
    if s.phase == EnginePhase::AwaitingWake && s.current is Some && s.current->0.host is Some {
        let url = s.current->0;
        let next = wait_or_fetch(s, url, url.host->0, now);
        if next.1 is None {
            lemma_advance_finished(next.0, now);
        }
    }
    if s.phase == EnginePhase::AwaitingPage {
        let read = facts_of(page.html_content);
        let kept = saved_with(s.store, page, read);
        if let Ok(marked) = kept.visited(page.url.href) {
            let links = extracted(page.url, read.anchors);
            let found = link_urls(links.internal) + link_urls(links.external);
            lemma_advance_finished(
                CrawlEngineView {
                    store: enqueued(marked, found),
                    session: CrawlSessionView {
                        pages_crawled: bump(s.session.pages_crawled),
                        ..s.session
                    },
                    ..s.idle()
                },
                now,
            );
        }
        lemma_advance_finished(s.with_error().idle(), now);
    }
}

/// Taking URLs from the queue, and every step of the engine, keeps the
/// session of the store.
pub proof fn lemma_steps_keep_session(
    s: CrawlEngineView,
    seeds: Seq<Seq<char>>,
    answer: Option<(u16, Seq<char>)>,
    page: FetchedPageView,
    now: u64,
)
    ensures
        started(s, seeds, now).0.store.session_id == s.store.session_id,
        robots_answered(s, answer, now).0.store.session_id == s.store.session_id,
        woken(s, now).0.store.session_id == s.store.session_id,
        page_fetched(s, page, now).0.store.session_id == s.store.session_id,
        page_failed(s, now).0.store.session_id == s.store.session_id,
{
    lemma_enqueued_keeps_rest(recovered(s.store), seeds);
    lemma_advance_only_hands_out(
        CrawlEngineView {
            session: CrawlSessionView { status: SessionStatus::Running, ..s.session },
            store: enqueued(recovered(s.store), seeds),
            ..s.idle()
        },
        now,
    );
    if s.phase == EnginePhase::AwaitingRobots && s.current is Some && s.current->0.host is Some {
        let target = s.current->0;
        let host = target.host->0;
        let policy = match answer {
            Some((status, body)) => policy_of(status, body),
            None => RobotsFetchResultView::Unavailable,
        };
        let store = match answer {
            Some((status, body)) => if status == 200 {
                s.store.with_robots_text(host, Some(body), now)
            } else {
                s.store
            },
            None => s.store,
        };
        let informed = CrawlEngineView {
            politeness: s.politeness.installed(host, policy),
            store,
            ..s
        };
        let next = check_and_go(informed, target, host, now);
        if next.1 is None {
            lemma_advance_only_hands_out(next.0, now);
        }
    }
    if s.phase == EnginePhase::AwaitingWake && s.current is Some && s.current->0.host is Some {
        let target = s.current->0;
        let next = wait_or_fetch(s, target, target.host->0, now);
        if next.1 is None {
            lemma_advance_only_hands_out(next.0, now);
        }
    }
    if s.phase == EnginePhase::AwaitingPage {
        let read = facts_of(page.html_content);
        let kept = saved_with(s.store, page, read);
        if let Ok(marked) = kept.visited(page.url.href) {
            let links = extracted(page.url, read.anchors);
            let found = link_urls(links.internal) + link_urls(links.external);
            lemma_enqueued_keeps_rest(marked, found);
            lemma_advance_only_hands_out(
                CrawlEngineView {
                    store: enqueued(marked, found),
                    session: CrawlSessionView {
                        pages_crawled: bump(s.session.pages_crawled),
                        ..s.session
                    },
                    ..s.idle()
                },
                now,
            );
        }
        lemma_advance_only_hands_out(s.with_error().idle(), now);
    }
}

/// No step of the engine makes a URL unseen: a page that was saved stays
/// saved, whatever happens later and however often the session is taken up
/// again; and a page that is handed to the engine while it waits for one
/// is saved.
pub proof fn lemma_steps_keep_seen(
    s: CrawlEngineView,
    seeds: Seq<Seq<char>>,
    answer: Option<(u16, Seq<char>)>,
    page: FetchedPageView,
    now: u64,
    url: Seq<char>,
)
    requires
        s.store.has_page(url),
    ensures
        started(s, seeds, now).0.store.has_page(url),
        robots_answered(s, answer, now).0.store.has_page(url),
        woken(s, now).0.store.has_page(url),
        page_fetched(s, page, now).0.store.has_page(url),
        page_failed(s, now).0.store.has_page(url),
        s.phase == EnginePhase::AwaitingPage ==> page_fetched(s, page, now).0.store.has_page(
            page.url.href,
        ),
{
    lemma_pages_saved_on_page_only(s, seeds, answer, page, now);
    lemma_saved_keeps_seen(s.store, page, facts_of(page.html_content), url);
    lemma_enqueued_keeps_rest(recovered(s.store), seeds);
    lemma_advance_only_hands_out(
        CrawlEngineView {
            session: CrawlSessionView { status: SessionStatus::Running, ..s.session },
            store: enqueued(recovered(s.store), seeds),
            ..s.idle()
        },
        now,
    );
    if s.phase == EnginePhase::AwaitingRobots && s.current is Some && s.current->0.host is Some {
        let target = s.current->0;
        let host = target.host->0;
        let policy = match answer {
            Some((status, body)) => policy_of(status, body),
            None => RobotsFetchResultView::Unavailable,
        };
        let store = match answer {
            Some((status, body)) => if status == 200 {
                s.store.with_robots_text(host, Some(body), now)
            } else {
                s.store
            },
            None => s.store,
        };
        let informed = CrawlEngineView {
            politeness: s.politeness.installed(host, policy),
            store,
            ..s
        };
        let next = check_and_go(informed, target, host, now);
        if next.1 is None {
            lemma_advance_only_hands_out(next.0, now);
        }
    }
    if s.phase == EnginePhase::AwaitingWake && s.current is Some && s.current->0.host is Some {
        let target = s.current->0;
        let next = wait_or_fetch(s, target, target.host->0, now);
        if next.1 is None {
            lemma_advance_only_hands_out(next.0, now);
        }
    }
    if s.phase == EnginePhase::AwaitingPage {
        let read = facts_of(page.html_content);
        let kept = saved_with(s.store, page, read);
        if let Ok(marked) = kept.visited(page.url.href) {
            let links = extracted(page.url, read.anchors);
            let found = link_urls(links.internal) + link_urls(links.external);
            lemma_enqueued_keeps_rest(marked, found);
            lemma_advance_only_hands_out(
                CrawlEngineView {
                    store: enqueued(marked, found),
                    session: CrawlSessionView {
                        pages_crawled: bump(s.session.pages_crawled),
                        ..s.session
                    },
                    ..s.idle()
                },
                now,
            );
        }
        lemma_advance_only_hands_out(s.with_error().idle(), now);
    }
}

/// Tells whether the queue `after` is the queue `before` with some pending
/// entries of the session handed out and nothing else changed.
pub open spec fn only_handed_out(
    session_id: i64,
    before: Seq<FrontierEntryView>,
    after: Seq<FrontierEntryView>,
) -> bool {
    &&& after.len() == before.len()
    &&& forall|i: int|
        0 <= i < before.len() ==> (#[trigger] after[i]) == before[i] || (before[i].session_id
            == session_id && before[i].status == EntryStatus::Pending && after[i] == (
        FrontierEntryView { status: EntryStatus::Processing, ..before[i] }))
}

/// Taking URLs from the queue hands out pending entries and changes no
/// other entry.
pub proof fn lemma_advance_only_hands_out(s: CrawlEngineView, now: u64)
    ensures
        only_handed_out(s.store.session_id, s.store.entries, advance(s, now).0.store.entries),
        advance(s, now).0.store.session_id == s.store.session_id,
    decreases s.store.pending_count(),
{
    match s.store.next_index() {
        None => {},
        Some(i) => {
            let taken = CrawlEngineView {
                store: s.store.with_status(i, EntryStatus::Processing),
                ..s
            };
            let next = match url_parse(s.store.entries[i].url) {
                None => (taken.with_error().idle(), None),
                Some(url) => consider(taken, url, now),
            };
            if let Some(url) = url_parse(s.store.entries[i].url) {
                lemma_consider_keeps_queue(taken, url, now);
            }
            assert(s.store.is_next(i));
            assert(only_handed_out(s.store.session_id, s.store.entries, taken.store.entries));
            if next.1 is None {
                lemma_pending_after_take(s.store.entries, s.store.session_id, i);
                lemma_advance_only_hands_out(next.0, now);
                let end = advance(next.0, now).0.store.entries;
                assert forall|k: int| 0 <= k < s.store.entries.len() implies (#[trigger] end[k])
                    == s.store.entries[k] || (s.store.entries[k].session_id == s.store.session_id
                    && s.store.entries[k].status == EntryStatus::Pending && end[k] == (
                FrontierEntryView { status: EntryStatus::Processing, ..s.store.entries[k] })) by {
                    assert(end[k] == taken.store.entries[k] || (taken.store.entries[k].session_id
                        == s.store.session_id && taken.store.entries[k].status
                        == EntryStatus::Pending && end[k] == (FrontierEntryView {
                        status: EntryStatus::Processing,
                        ..taken.store.entries[k]
                    })));
                }
            }
        },
    }
}

/// A session that is taken up again loses no work and repeats none: the
/// pages that were saved are still there; an entry that was completed or
/// had failed stays as it was; and every other entry of the session is
/// pending or being processed, under its URL and in its place.
pub proof fn lemma_resume_keeps_work(s: CrawlEngineView, seeds: Seq<Seq<char>>, now: u64)
    requires
        s.store.well_formed(),
    ensures
        started(s, seeds, now).0.store.pages == s.store.pages,
        started(s, seeds, now).0.store.entries.len() >= s.store.entries.len(),
        forall|i: int|
            0 <= i < s.store.entries.len() ==> {
                let before = #[trigger] s.store.entries[i];
                let after = started(s, seeds, now).0.store.entries[i];
                &&& after.session_id == before.session_id
                &&& after.url == before.url
                &&& (before.status == EntryStatus::Completed || before.status
                    == EntryStatus::Failed || before.session_id != s.store.session_id)
                    ==> after.status == before.status
                &&& (before.status == EntryStatus::Pending || before.status
                    == EntryStatus::Processing) ==> (after.status == EntryStatus::Pending
                    || after.status == EntryStatus::Processing)
            },
{
    let again = recovered(s.store);
    let queued = enqueued(again, seeds);
    let begun = CrawlEngineView {
        session: CrawlSessionView { status: SessionStatus::Running, ..s.session },
        store: queued,
        ..s.idle()
    };
    lemma_recovered(s.store);
    lemma_enqueued(again, seeds);
    lemma_advance_only_hands_out(begun, now);
    lemma_advance_keeps_pages(begun, now);
    let end = advance(begun, now).0.store.entries;
    assert forall|i: int| 0 <= i < s.store.entries.len() implies {
        let before = #[trigger] s.store.entries[i];
        let after = end[i];
        &&& after.session_id == before.session_id
        &&& after.url == before.url
        &&& (before.status == EntryStatus::Completed || before.status == EntryStatus::Failed
            || before.session_id != s.store.session_id) ==> after.status == before.status
        &&& (before.status == EntryStatus::Pending || before.status == EntryStatus::Processing)
            ==> (after.status == EntryStatus::Pending || after.status == EntryStatus::Processing)
    } by {
        assert(queued.entries.take(again.entries.len() as int)[i] == again.entries[i]);
        assert(queued.entries[i] == again.entries[i]);
        assert(end[i] == queued.entries[i] || (queued.entries[i].session_id
            == queued.session_id && queued.entries[i].status == EntryStatus::Pending && end[i]
            == (FrontierEntryView { status: EntryStatus::Processing, ..queued.entries[i] })));
    }
}

/// The crawl engine of one session.
#[derive(Debug)]
pub struct CrawlEngine {
    session: CrawlSession,
    user_agent: String,
    store: FrontierStore,
    politeness: Politeness,
    current: Option<WebUrl>,
    phase: EnginePhase,
}

impl View for CrawlEngine {
    type V = CrawlEngineView;

    closed spec fn view(&self) -> CrawlEngineView {
        CrawlEngineView {
            session: self.session@,
            user_agent: self.user_agent@,
            store: self.store@,
            politeness: self.politeness@,
            current: self.current.deep_view(),
            phase: self.phase,
        }
    }
}

fn bumped(n: u64) -> (r: u64)
    ensures
        r == bump(n),
{
    if n < u64::MAX {
        n + 1
    } else {
        n
    }
}

fn urls_of(links: &Vec<LinkInfo>, into: &mut Vec<String>)
    ensures
        final(into).deep_view() == old(into).deep_view() + link_urls(links.deep_view()),
{
    let ghost start = into.deep_view();
    let ghost all = link_urls(links.deep_view());
    let mut i: usize = 0;
    assert(start + all.take(0) =~= start);
    while i < links.len()
        invariant
            i <= links.len(),
            all == link_urls(links.deep_view()),
            into.deep_view() == start + all.take(i as int),
        decreases links.len() - i,
    {
        let ghost before = into.deep_view();
        into.push(links[i].url.clone());
        assert(all[i as int] == links[i as int].url@);
        assert(into.deep_view() =~= before.push(links[i as int].url@));
        assert(start + all.take(i + 1) =~= (start + all.take(i as int)).push(all[i as int]));
        i += 1;
    }
    assert(all.take(links.len() as int) == all);
}

impl CrawlEngine {
    /// An engine for `session` that crawls as `user_agent` on a store.
    pub fn new(session: CrawlSession, user_agent: String, store: FrontierStore) -> (e: CrawlEngine)
        ensures
            e@ == (CrawlEngineView {
                session: session@,
                user_agent: user_agent@,
                store: store@,
                politeness: no_hosts(),
                current: None,
                phase: EnginePhase::Idle,
            }),
    {
        CrawlEngine {
            session,
            user_agent,
            store,
            politeness: Politeness::new(),
            current: None,
            phase: EnginePhase::Idle,
        }
    }

    /// The session with its counters.
    pub fn session(&self) -> (r: &CrawlSession)
        ensures
            r@ == self@.session,
    {
        &self.session
    }

    /// The frontier store.
    pub fn store(&self) -> (r: &FrontierStore)
        ensures
            r@ == self@.store,
    {
        &self.store
    }

    /// What the engine is waiting for.
    pub fn phase(&self) -> (r: EnginePhase)
        ensures
            r == self@.phase,
    {
        self.phase
    }

    /// Gives up the engine and hands out its store.
    pub fn into_store(self) -> (r: FrontierStore)
        ensures
            r@ == self@.store,
    {
        self.store
    }

    fn wait_or_fetch(&mut self, url: WebUrl, host: &String, now_ms: u64) -> (r: Option<EngineAction>)
        ensures
            (final(self)@, r.deep_view()) == wait_or_fetch(old(self)@, url@, host@, now_ms),
    {
        let wait = self.politeness.wait_ms(host.as_str(), now_ms);
        if wait > 0 {
            self.current = Some(url);
            self.phase = EnginePhase::AwaitingWake;
            Some(EngineAction::Sleep { millis: wait })
        } else if self.store.has_seen(url.href.as_str()) {
            self.current = None;
            self.phase = EnginePhase::Idle;
            None
        } else {
            self.politeness.record_fetch(host.as_str(), now_ms);
            self.current = Some(url.clone());
            self.phase = EnginePhase::AwaitingPage;
            Some(EngineAction::FetchPage { url })
        }
    }

    fn check_and_go(&mut self, url: WebUrl, host: &String, now_ms: u64) -> (r: Option<EngineAction>)
        requires
            url@.host == Some(host@),
        ensures
            (final(self)@, r.deep_view()) == check_and_go(old(self)@, url@, host@, now_ms),
    {
        let allowed = match self.store.check_robot_policy(&url) {
            Ok(allowed) => allowed,
            Err(_) => false,
        };
        if !allowed {
            self.current = None;
            self.phase = EnginePhase::Idle;
            None
        } else if !self.politeness.permits(
            host.as_str(),
            url.path.as_str(),
            self.user_agent.as_str(),
        ) {
            self.current = None;
            self.phase = EnginePhase::Idle;
            None
        } else {
            self.wait_or_fetch(url, host, now_ms)
        }
    }

    fn consider(&mut self, url: WebUrl, now_ms: u64) -> (r: Option<EngineAction>)
        ensures
            (final(self)@, r.deep_view()) == consider(old(self)@, url@, now_ms),
    {
        let host = match &url.host {
            Some(host) => host.clone(),
            None => {
                self.session.errors_encountered = bumped(self.session.errors_encountered);
                self.current = None;
                self.phase = EnginePhase::Idle;
                return None;
            },
        };
        if !self.politeness.has_robots(host.as_str()) {
            match self.store.robots_text(host.as_str()) {
                Some(text) => {
                    self.politeness.install_robots(
                        host.as_str(),
                        RobotsFetchResult::Success(Robot::new(text)),
                    );
                },
                None => {},
            }
        }
        assert(self@ == with_known_robots(old(self)@, host@));
        if self.politeness.has_robots(host.as_str()) {
            self.check_and_go(url, &host, now_ms)
        } else {
            match robots_url(&url) {
                Some(robots) => {
                    self.current = Some(url);
                    self.phase = EnginePhase::AwaitingRobots;
                    Some(EngineAction::FetchRobots { robots_url: robots })
                },
                None => {
                    // Not reached: the URL has a host.
                    self.current = None;
                    self.phase = EnginePhase::Idle;
                    None
                },
            }
        }
    }

    fn advance(&mut self, now_ms: u64) -> (action: EngineAction)
        ensures
            (final(self)@, action@) == advance(old(self)@, now_ms),
    {
        loop
            invariant
                advance(old(self)@, now_ms) == advance(self@, now_ms),
            decreases self@.store.pending_count(),
        {
            let ghost before = self@;
            match self.store.next_queue() {
                None => {
                    self.session.status = SessionStatus::Finished;
                    self.current = None;
                    self.phase = EnginePhase::Finished;
                    return EngineAction::Finished;
                },
                Some(text) => {
                    let ghost taken = self@;
                    match WebUrl::parse(text.as_str()) {
                        None => {
                            self.session.errors_encountered = bumped(
                                self.session.errors_encountered,
                            );
                            self.current = None;
                            self.phase = EnginePhase::Idle;
                        },
                        Some(url) => {
                            proof {
                                lemma_consider_keeps_queue(taken, url@, now_ms);
                            }
                            match self.consider(url, now_ms) {
                                Some(action) => {
                                    return action;
                                },
                                None => {},
                            }
                        },
                    }
                },
            }
        }
    }

    /// Begins or takes up the session: entries that were being processed
    /// when an earlier run ended become pending again, the seeds are
    /// queued, and the first URL is taken up.
    pub fn start(&mut self, seeds: &Vec<WebUrl>, now_ms: u64) -> (action: EngineAction)
        ensures
            (final(self)@, action@) == started(
                old(self)@,
                Seq::new(seeds.len() as nat, |i: int| seeds[i]@.href),
                now_ms,
            ),
    {
        let ghost hrefs = Seq::new(seeds.len() as nat, |i: int| seeds[i]@.href);
        let mut urls: Vec<String> = Vec::new();
        let mut i: usize = 0;
        while i < seeds.len()
            invariant
                i <= seeds.len(),
                hrefs == Seq::new(seeds.len() as nat, |i: int| seeds[i]@.href),
                urls.deep_view() == hrefs.take(i as int),
            decreases seeds.len() - i,
        {
            let ghost before = urls.deep_view();
            urls.push(seeds[i].href.clone());
            assert(urls.deep_view() =~= before.push(seeds[i as int]@.href));
            assert(hrefs.take(i + 1) =~= hrefs.take(i as int).push(hrefs[i as int]));
            i += 1;
        }
        assert(hrefs.take(seeds.len() as int) == hrefs);
        self.store.recover();
        self.store.add_to_queue(&urls);
        self.session.status = SessionStatus::Running;
        self.current = None;
        self.phase = EnginePhase::Idle;
        self.advance(now_ms)
    }

    /// Takes in the answer to a request for robots.txt: status code and
    /// body, or nothing if no answer came.
    pub fn on_robots(&mut self, answer: Option<(u16, String)>, now_ms: u64) -> (action: EngineAction)
        ensures
            (final(self)@, action@) == robots_answered(
                old(self)@,
                match answer {
                    Some((status, body)) => Some((status, body@)),
                    None => None,
                },
                now_ms,
            ),
    {
        if self.phase != EnginePhase::AwaitingRobots {
            return EngineAction::Unexpected;
        }
        let url = match &self.current {
            Some(url) => url.clone(),
            None => {
                return EngineAction::Unexpected;
            },
        };
        let host = match &url.host {
            Some(host) => host.clone(),
            None => {
                return EngineAction::Unexpected;
            },
        };
        let policy = match answer {
            Some((status, body)) => {
                if status == 200 {
                    self.store.set_robots_text(host.as_str(), Some(body.clone()), now_ms);
                }
                RobotsFetchResult::from_response(status, body)
            },
            None => RobotsFetchResult::Unavailable,
        };
        self.politeness.install_robots(host.as_str(), policy);
        match self.check_and_go(url, &host, now_ms) {
            Some(action) => action,
            None => self.advance(now_ms),
        }
    }

    /// Goes on after a politeness pause.
    pub fn on_wake(&mut self, now_ms: u64) -> (action: EngineAction)
        ensures
            (final(self)@, action@) == woken(old(self)@, now_ms),
    {
        if self.phase != EnginePhase::AwaitingWake {
            return EngineAction::Unexpected;
        }
        let url = match &self.current {
            Some(url) => url.clone(),
            None => {
                return EngineAction::Unexpected;
            },
        };
        let host = match &url.host {
            Some(host) => host.clone(),
            None => {
                return EngineAction::Unexpected;
            },
        };
        match self.wait_or_fetch(url, &host, now_ms) {
            Some(action) => action,
            None => self.advance(now_ms),
        }
    }

    /// Takes in a fetched page with what was read out of its body: saves
    /// it, marks its URL as visited, queues its internal and external
    /// links, and goes on.
    pub fn on_page_with(&mut self, page: &FetchedPage, facts: PageFacts, now_ms: u64) -> (action:
        EngineAction)
        ensures
            (final(self)@, action@) == page_fetched_with(old(self)@, page@, facts@, now_ms),
    {
        if self.phase != EnginePhase::AwaitingPage {
            return EngineAction::Unexpected;
        }
        let mut links = ExtractLinks::new();
        links.add_anchors(&page.url, &facts.anchors);
        links.deduplicate();
        proof {
            let found = facts@.anchors;
            assert(Seq::<LinkInfoView>::empty() + links_of_class(
                page.url@,
                found,
                LinkClass::Internal,
            ) =~= links_of_class(page.url@, found, LinkClass::Internal));
            assert(links@ == extracted(page.url@, found));
        }
        self.store.save_with(page, facts);
        match self.store.mark_as_visited(page.url.href.as_str()) {
            Err(error) => {
                self.session.status = SessionStatus::Failed;
                self.current = None;
                self.phase = EnginePhase::Failed;
                EngineAction::Fatal { error }
            },
            Ok(()) => {
                let mut found: Vec<String> = Vec::new();
                urls_of(&links.internal, &mut found);
                urls_of(&links.external, &mut found);
                proof {
                    assert(found.deep_view() =~= link_urls(links@.internal) + link_urls(
                        links@.external,
                    ));
                }
                self.store.add_to_queue(&found);
                self.session.pages_crawled = bumped(self.session.pages_crawled);
                self.current = None;
                self.phase = EnginePhase::Idle;
                self.advance(now_ms)
            },
        }
    }

    /// Takes in a fetched page: saves it, marks its URL as visited, queues
    /// its internal and external links, and goes on.
    pub fn on_page(&mut self, page: &FetchedPage, now_ms: u64) -> (action: EngineAction)
        ensures
            (final(self)@, action@) == page_fetched(old(self)@, page@, now_ms),
    {
        let facts = PageFacts::of(page.html_content.as_str());
        self.on_page_with(page, facts, now_ms)
    }

    /// Takes in the failure of a fetch: counts it and goes on.
    pub fn on_page_failed(&mut self, now_ms: u64) -> (action: EngineAction)
        ensures
            (final(self)@, action@) == page_failed(old(self)@, now_ms),
    {
        if self.phase != EnginePhase::AwaitingPage {
            return EngineAction::Unexpected;
        }
        self.session.errors_encountered = bumped(self.session.errors_encountered);
        self.current = None;
        self.phase = EnginePhase::Idle;
        self.advance(now_ms)
    }
}

} // verus!
