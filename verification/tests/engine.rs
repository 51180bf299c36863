use crawler_core::engine::{CrawlEngine, CrawlSession, EngineAction, EnginePhase, SessionStatus};
use crawler_core::fetch::{FetchStep, FetchedPage, Fetcher, ResponseHead};
use crawler_core::frontier::{EntryStatus, FrontierStore};
use crawler_core::web_url::WebUrl;
use std::collections::HashMap;

/// A site that answers from memory, with a clock that only sleeping moves.
struct Site {
    pages: HashMap<String, String>,
    robots: HashMap<String, (u16, String)>,
    now: u64,
    fetches: Vec<(String, u64)>,
    robots_requests: Vec<String>,
    sleeps: Vec<u64>,
}

impl Site {
    fn new() -> Site {
        Site {
            pages: HashMap::new(),
            robots: HashMap::new(),
            now: 1_000,
            fetches: Vec::new(),
            robots_requests: Vec::new(),
            sleeps: Vec::new(),
        }
    }

    fn page(&mut self, url: &str, body: &str) {
        self.pages.insert(url.to_string(), body.to_string());
    }

    fn fetch(&mut self, url: &WebUrl) -> Option<FetchedPage> {
        self.fetches.push((url.href.clone(), self.now));
        let mut fetcher = Fetcher::new(url.clone(), self.now);
        loop {
            let head = match self.pages.get(&fetcher.current.href) {
                Some(body) => ResponseHead {
                    status: 200,
                    reason: "OK".to_string(),
                    content_type: Some("text/html".to_string()),
                    content_length: Some(body.len().to_string()),
                    location: None,
                },
                None => ResponseHead {
                    status: 404,
                    reason: "Not Found".to_string(),
                    content_type: None,
                    content_length: None,
                    location: None,
                },
            };
            match fetcher.on_response(head) {
                FetchStep::Request { fetcher: next, delay_ms } => {
                    self.now += delay_ms;
                    fetcher = next;
                }
                FetchStep::ReadBody { page } => {
                    let body = self.pages[&page.final_url.href].clone();
                    return Some(page.finish(body, self.now));
                }
                FetchStep::Fail { .. } => return None,
            }
        }
    }

    /// Performs one action and reports it. Returns the next action.
    fn perform(&mut self, engine: &mut CrawlEngine, action: EngineAction) -> EngineAction {
        match action {
            EngineAction::FetchRobots { robots_url } => {
                self.robots_requests.push(robots_url.clone());
                let answer = self.robots.get(&robots_url).cloned().or(Some((404, String::new())));
                engine.on_robots(answer, self.now)
            }
            EngineAction::Sleep { millis } => {
                self.sleeps.push(millis);
                self.now += millis;
                engine.on_wake(self.now)
            }
            EngineAction::FetchPage { url } => match self.fetch(&url) {
                Some(page) => engine.on_page(&page, self.now),
                None => engine.on_page_failed(self.now),
            },
            other => other,
        }
    }

    fn run(&mut self, engine: &mut CrawlEngine, mut action: EngineAction) {
        loop {
            match action {
                EngineAction::Finished => return,
                EngineAction::Fatal { error } => panic!("store error: {:?}", error),
                EngineAction::Unexpected => panic!("engine and driver out of step"),
                other => action = self.perform(engine, other),
            }
        }
    }
}

fn session(id: i64) -> CrawlSession {
    CrawlSession {
        id,
        start_url: "https://h.example/".to_string(),
        status: SessionStatus::Running,
        pages_crawled: 0,
        errors_encountered: 0,
        created_at: 0,
    }
}

fn engine(id: i64) -> CrawlEngine {
    CrawlEngine::new(session(id), "TestBot/1.0".to_string(), FrontierStore::new(id))
}

fn seed(url: &str) -> WebUrl {
    WebUrl::parse(url).unwrap()
}

#[test]
fn no_seeds_finish_cleanly() {
    let mut e = engine(1);
    assert!(matches!(e.start(&vec![], 0), EngineAction::Finished));
    assert_eq!(e.session().pages_crawled, 0);
    assert_eq!(e.session().status, SessionStatus::Finished);
    assert_eq!(e.phase(), EnginePhase::Finished);
}

#[test]
fn unreachable_seed_finishes_with_no_pages() {
    let mut site = Site::new();
    let mut e = engine(1);
    let first = e.start(&vec![seed("https://h.example/missing")], site.now);
    site.run(&mut e, first);
    assert_eq!(e.session().pages_crawled, 0);
    assert_eq!(e.session().errors_encountered, 1);
    assert_eq!(e.session().status, SessionStatus::Finished);
    assert!(e.store().pages().is_empty());
}

#[test]
fn follows_links_and_saves_each_page_once() {
    let mut site = Site::new();
    site.page("https://h.example/", "<a href=\"/a\">a</a><a href=\"/b\">b</a><a href=\"/a\">a</a>");
    site.page("https://h.example/a", "<a href=\"/\">home</a><a href=\"/b\">b</a>");
    site.page("https://h.example/b", "<title>B</title><a href=\"mailto:x@h.example\">m</a>");
    let mut e = engine(1);
    let first = e.start(&vec![seed("https://h.example/")], site.now);
    site.run(&mut e, first);
    let mut saved: Vec<String> = e.store().pages().iter().map(|p| p.url.clone()).collect();
    saved.sort();
    assert_eq!(saved, vec!["https://h.example/", "https://h.example/a", "https://h.example/b"]);
    assert_eq!(e.session().pages_crawled, 3);
    assert_eq!(e.session().errors_encountered, 0);
    assert_eq!(site.robots_requests, vec!["https://h.example/robots.txt"]);
    assert!(e.store().entries().iter().all(|x| x.status == EntryStatus::Completed));
}

#[test]
fn duplicate_seeds_give_one_page() {
    let mut site = Site::new();
    site.page("https://h.example/u", "<p>page</p>");
    let mut e = engine(1);
    let u = seed("https://h.example/u");
    let first = e.start(&vec![u.clone(), u], site.now);
    site.run(&mut e, first);
    assert_eq!(e.store().pages().len(), 1);
    assert_eq!(e.store().pages()[0].url, "https://h.example/u");
    assert_eq!(e.store().entries().len(), 1);
    assert_eq!(site.fetches.len(), 1);
}

#[test]
fn crawl_delay_is_kept_between_fetches_on_a_host() {
    let mut site = Site::new();
    site.robots.insert(
        "https://h.example/robots.txt".to_string(),
        (200, "User-agent: *\nCrawl-delay: 2\n".to_string()),
    );
    site.page("https://h.example/1", "<p>one</p>");
    site.page("https://h.example/2", "<p>two</p>");
    let mut e = engine(1);
    let first = e.start(&vec![seed("https://h.example/1"), seed("https://h.example/2")], site.now);
    site.run(&mut e, first);
    assert_eq!(site.fetches.len(), 2);
    assert!(site.fetches[1].1 - site.fetches[0].1 >= 2000);
    assert_eq!(site.sleeps, vec![2000]);
    assert_eq!(e.store().pages().len(), 2);
    assert_eq!(
        e.store().robots_text("h.example").as_deref(),
        Some("User-agent: *\nCrawl-delay: 2\n")
    );
}

#[test]
fn robots_rules_are_obeyed() {
    let mut site = Site::new();
    site.robots.insert(
        "https://h.example/robots.txt".to_string(),
        (200, "User-agent: *\nDisallow: /private\n".to_string()),
    );
    site.robots.insert("https://closed.example/robots.txt".to_string(), (403, String::new()));
    site.page(
        "https://h.example/",
        "<a href=\"/private/x\">p</a><a href=\"/open\">o</a><a href=\"https://closed.example/\">c</a>",
    );
    site.page("https://h.example/private/x", "<p>secret</p>");
    site.page("https://h.example/open", "<p>open</p>");
    site.page("https://closed.example/", "<p>closed</p>");
    let mut e = engine(1);
    let first = e.start(&vec![seed("https://h.example/")], site.now);
    site.run(&mut e, first);
    let mut saved: Vec<String> = e.store().pages().iter().map(|p| p.url.clone()).collect();
    saved.sort();
    assert_eq!(saved, vec!["https://h.example/", "https://h.example/open"]);
    let fetched: Vec<&str> = site.fetches.iter().map(|f| f.0.as_str()).collect();
    assert!(!fetched.contains(&"https://h.example/private/x"));
    assert!(!fetched.contains(&"https://closed.example/"));
}

#[test]
fn reports_out_of_step_are_ignored() {
    let mut e = engine(1);
    assert!(matches!(e.on_wake(0), EngineAction::Unexpected));
    assert!(matches!(e.on_robots(None, 0), EngineAction::Unexpected));
    assert!(matches!(e.on_page_failed(0), EngineAction::Unexpected));
    assert_eq!(e.phase(), EnginePhase::Idle);
}

#[test]
fn interrupted_session_is_taken_up_again() {
    let mut site = Site::new();
    let mut index = String::new();
    for i in 1..10 {
        index.push_str(&format!("<a href=\"/p{}\">p</a>", i));
        site.page(&format!("https://h.example/p{}", i), "<p>leaf</p>");
    }
    site.page("https://h.example/", &index);

    // The first run ends while the fourth page is being fetched.
    let mut e = engine(5);
    let mut action = e.start(&vec![seed("https://h.example/")], site.now);
    while e.store().pages().len() < 3 {
        action = site.perform(&mut e, action);
    }
    assert!(matches!(action, EngineAction::FetchPage { .. }));
    assert_eq!(e.store().pages().len(), 3);
    let in_flight = e
        .store()
        .entries()
        .iter()
        .filter(|x| x.status == EntryStatus::Processing)
        .count();
    assert_eq!(in_flight, 1);

    // The second run works on what the first one left.
    let store = e.into_store();
    let mut e = CrawlEngine::new(session(5), "TestBot/1.0".to_string(), store);
    let first = e.start(&vec![], site.now);
    site.run(&mut e, first);
    assert_eq!(e.store().pages().len(), 10);
    assert_eq!(e.session().status, SessionStatus::Finished);
    assert!(e.store().entries().iter().all(|x| x.status == EntryStatus::Completed));

    // An uninterrupted run saves the same pages.
    let mut other = Site::new();
    other.pages = site.pages.clone();
    let mut whole = engine(6);
    let first = whole.start(&vec![seed("https://h.example/")], other.now);
    other.run(&mut whole, first);
    let mut a: Vec<String> = e.store().pages().iter().map(|p| p.url.clone()).collect();
    let mut b: Vec<String> = whole.store().pages().iter().map(|p| p.url.clone()).collect();
    a.sort();
    b.sort();
    assert_eq!(a, b);
}

#[test]
fn page_for_a_url_that_was_not_handed_out_is_fatal() {
    let mut site = Site::new();
    site.page("https://h.example/a", "<p>a</p>");
    site.page("https://h.example/b", "<p>b</p>");
    let mut e = engine(1);
    let mut action = e.start(&vec![seed("https://h.example/a"), seed("https://h.example/b")], 0);
    while !matches!(action, EngineAction::FetchPage { .. }) {
        action = site.perform(&mut e, action);
    }
    let wrong = site.fetch(&seed("https://h.example/b")).unwrap();
    match e.on_page(&wrong, site.now) {
        EngineAction::Fatal { error } => {
            assert_eq!(error, crawler_core::frontier::StoreError::InvalidTransition)
        }
        other => panic!("not refused: {:?}", other),
    }
    assert_eq!(e.session().status, SessionStatus::Failed);
    assert_eq!(e.phase(), EnginePhase::Failed);
    assert!(matches!(e.on_wake(site.now), EngineAction::Unexpected));
}

#[test]
fn kept_robots_text_is_used_without_a_new_request() {
    let mut site = Site::new();
    site.robots.insert(
        "https://h.example/robots.txt".to_string(),
        (200, "User-agent: *\nDisallow: /private\n".to_string()),
    );
    site.page("https://h.example/", "<p>home</p>");
    site.page("https://h.example/private", "<p>secret</p>");
    site.page("https://h.example/public", "<p>open</p>");
    let mut e = engine(2);
    let first = e.start(&vec![seed("https://h.example/")], site.now);
    site.run(&mut e, first);
    assert_eq!(site.robots_requests.len(), 1);

    let store = e.into_store();
    let mut e = CrawlEngine::new(session(2), "TestBot/1.0".to_string(), store);
    let first = e.start(
        &vec![seed("https://h.example/private"), seed("https://h.example/public")],
        site.now,
    );
    site.run(&mut e, first);
    assert_eq!(site.robots_requests.len(), 1);
    let mut saved: Vec<String> = e.store().pages().iter().map(|p| p.url.clone()).collect();
    saved.sort();
    assert_eq!(saved, vec!["https://h.example/", "https://h.example/public"]);
}

#[test]
fn urls_of_other_schemes_without_host_fail() {
    let mut e = engine(1);
    let action = e.start(&vec![seed("mailto:someone@h.example")], 0);
    assert!(matches!(action, EngineAction::Finished));
    assert_eq!(e.session().errors_encountered, 1);
    assert_eq!(e.session().pages_crawled, 0);
}

#[test]
fn operator_can_close_a_host() {
    let mut site = Site::new();
    site.page("https://h.example/", "<p>home</p>");
    let mut store = FrontierStore::new(1);
    store.restore_domain(crawler_core::frontier::DomainRecord {
        host: "h.example".to_string(),
        allow_crawl: false,
        robots_text: None,
        robots_fetched_at: None,
    });
    let mut e = CrawlEngine::new(session(1), "TestBot/1.0".to_string(), store);
    let first = e.start(&vec![seed("https://h.example/")], site.now);
    site.run(&mut e, first);
    assert!(site.fetches.is_empty());
    assert!(e.store().pages().is_empty());
}
