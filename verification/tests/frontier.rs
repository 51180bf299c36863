use crawler_core::extract_links::LinkClass;
use crawler_core::fetch::FetchedPage;
use crawler_core::frontier::{
    DomainRecord, EntryStatus, FrontierEntry, FrontierStore, PageFacts, QueueCounts, SavedPage,
    StoreError,
};
use crawler_core::html::Anchor;
use crawler_core::web_url::WebUrl;

fn urls(list: &[&str]) -> Vec<String> {
    list.iter().map(|s| s.to_string()).collect()
}

fn page(url: &str, body: &str, at: u64) -> FetchedPage {
    let u = WebUrl::parse(url).unwrap();
    FetchedPage {
        url: u.clone(),
        final_url: u,
        status_code: 200,
        content_type: Some("text/html".to_string()),
        content_length: Some(body.len().to_string()),
        html_content: body.to_string(),
        fetched_duration_ms: 5,
        timestamp_ms: at,
    }
}

#[test]
fn queue_takes_each_url_once() {
    let mut store = FrontierStore::new(1);
    let counts = store.add_to_queue(&urls(&["https://a.example/", "https://a.example/x"]));
    assert_eq!(counts, QueueCounts { added: 2, skipped: 0 });
    let counts = store.add_to_queue(&urls(&[
        "https://a.example/",
        "https://a.example/y",
        "https://a.example/y",
    ]));
    assert_eq!(counts, QueueCounts { added: 1, skipped: 2 });
    assert_eq!(store.entries().len(), 3);
    for e in store.entries() {
        assert_eq!(e.session_id, 1);
        assert_eq!(e.status, EntryStatus::Pending);
        assert_eq!(e.priority, 0);
        assert_eq!(e.retry_count, 0);
    }
}

#[test]
fn next_queue_hands_out_in_order_and_marks_processing() {
    let mut store = FrontierStore::new(1);
    store.add_to_queue(&urls(&["https://a.example/1", "https://a.example/2"]));
    assert_eq!(store.next_queue().as_deref(), Some("https://a.example/1"));
    assert_eq!(store.entries()[0].status, EntryStatus::Processing);
    assert_eq!(store.entries()[1].status, EntryStatus::Pending);
    assert_eq!(store.next_queue().as_deref(), Some("https://a.example/2"));
    assert_eq!(store.entries()[1].status, EntryStatus::Processing);
    assert_eq!(store.next_queue(), None);
}

#[test]
fn next_queue_prefers_priority_and_own_session() {
    let mut store = FrontierStore::new(7);
    let entry = |session_id: i64, url: &str, priority: i32, status: EntryStatus| FrontierEntry {
        session_id,
        url: url.to_string(),
        priority,
        retry_count: 0,
        status,
    };
    assert!(store.restore_entry(entry(7, "https://a.example/low", 0, EntryStatus::Pending)));
    assert!(store.restore_entry(entry(8, "https://a.example/other", 9, EntryStatus::Pending)));
    assert!(store.restore_entry(entry(7, "https://a.example/done", 9, EntryStatus::Completed)));
    assert!(store.restore_entry(entry(7, "https://a.example/high", 5, EntryStatus::Pending)));
    assert!(store.restore_entry(entry(7, "https://a.example/high2", 5, EntryStatus::Pending)));
    assert!(!store.restore_entry(entry(7, "https://a.example/high", 1, EntryStatus::Failed)));
    assert_eq!(store.next_queue().as_deref(), Some("https://a.example/high"));
    assert_eq!(store.next_queue().as_deref(), Some("https://a.example/high2"));
    assert_eq!(store.next_queue().as_deref(), Some("https://a.example/low"));
    assert_eq!(store.next_queue(), None);
    assert_eq!(store.entries()[1].status, EntryStatus::Pending);
}

#[test]
fn mark_as_visited_completes_processing_entries_only() {
    let mut store = FrontierStore::new(1);
    store.add_to_queue(&urls(&["https://a.example/1", "https://a.example/2"]));
    assert_eq!(store.mark_as_visited("https://a.example/none"), Ok(()));
    assert_eq!(store.mark_as_visited("https://a.example/1"), Err(StoreError::InvalidTransition));
    assert_eq!(store.entries()[0].status, EntryStatus::Pending);
    store.next_queue();
    assert_eq!(store.mark_as_visited("https://a.example/1"), Ok(()));
    assert_eq!(store.entries()[0].status, EntryStatus::Completed);
    assert_eq!(store.mark_as_visited("https://a.example/1"), Ok(()));
    assert_eq!(store.entries()[0].status, EntryStatus::Completed);
    assert_eq!(store.entries()[1].status, EntryStatus::Pending);
}

#[test]
fn recover_makes_processing_pending_again() {
    let mut store = FrontierStore::new(1);
    store.add_to_queue(&urls(&["https://a.example/1", "https://a.example/2", "https://a.example/3"]));
    store.next_queue();
    store.mark_as_visited("https://a.example/1").unwrap();
    store.next_queue();
    assert_eq!(store.recover(), 1);
    let statuses: Vec<EntryStatus> = store.entries().iter().map(|e| e.status).collect();
    assert_eq!(
        statuses,
        vec![EntryStatus::Completed, EntryStatus::Pending, EntryStatus::Pending]
    );
    assert_eq!(store.recover(), 0);
}

#[test]
fn save_keeps_one_page_per_url() {
    let mut store = FrontierStore::new(3);
    assert!(!store.has_seen("https://a.example/p"));
    let body = "<html><head><title>First</title><meta name=\"description\" content=\"About\"></head>\
                <body><a href=\"/x\">X</a><a href=\"https://b.example/\"> B </a>\
                <a href=\"mailto:m@a.example\"></a><a href=\"nonsense:\x01\">?</a></body></html>";
    store.save(&page("https://a.example/p", body, 10));
    assert!(store.has_seen("https://a.example/p"));
    assert!(!store.has_seen("https://a.example/q"));
    assert_eq!(store.pages().len(), 1);
    {
        let p: &SavedPage = &store.pages()[0];
        assert_eq!(p.session_id, 3);
        assert_eq!(p.url, "https://a.example/p");
        assert_eq!(p.final_url, "https://a.example/p");
        assert_eq!(p.status_code, 200);
        assert_eq!(p.content_type.as_deref(), Some("text/html"));
        assert_eq!(p.content_length, Some(body.len() as i64));
        assert_eq!(p.title.as_deref(), Some("First"));
        assert_eq!(p.description.as_deref(), Some("About"));
        assert_eq!(p.html_content, body);
        assert_eq!(p.fetched_at, 10);
        assert_eq!(p.content_hash.len(), 64);
    }
    let links = store.links();
    assert_eq!(links.len(), 3);
    assert_eq!(links[0].source_page_id, 0);
    assert_eq!(links[0].target_url, "https://a.example/x");
    assert_eq!(links[0].link_text.as_deref(), Some("X"));
    assert_eq!(links[0].classification, LinkClass::Internal);
    assert_eq!(links[1].target_url, "https://b.example/");
    assert_eq!(links[1].link_text.as_deref(), Some("B"));
    assert_eq!(links[1].classification, LinkClass::External);
    assert_eq!(links[2].target_url, "mailto:m@a.example");
    assert_eq!(links[2].link_text, None);
    assert_eq!(links[2].classification, LinkClass::Mailto);

    store.save(&page("https://a.example/p", "<title>Second</title>", 20));
    assert_eq!(store.pages().len(), 1);
    assert_eq!(store.pages()[0].title.as_deref(), Some("Second"));
    assert_eq!(store.pages()[0].description, None);
    assert_eq!(store.pages()[0].fetched_at, 20);

    store.save(&page("https://a.example/q", "<p>no title</p>", 30));
    assert_eq!(store.pages().len(), 2);
    assert_eq!(store.pages()[1].title, None);
}

#[test]
fn content_hash_is_sha256_in_hex() {
    let mut store = FrontierStore::new(1);
    store.save(&page("https://a.example/", "hello world", 0));
    assert_eq!(
        store.pages()[0].content_hash,
        "b94d27b9934d3e08a52e52d7da7dabfac484efe37a5380ee9088f7ace2efcde9"
    );
    assert_eq!(
        crawler_core::content_hash::content_hash(""),
        "e3b0c44298fc1c149afbf4c8996fb92427ae41e4649b934ca495991b7852b855"
    );
    assert_eq!(crawler_core::content_hash::to_hex(&vec![0x00, 0x0f, 0xa5, 0xff]), "000fa5ff");
}

#[test]
fn content_length_is_read_as_a_number() {
    let mut store = FrontierStore::new(1);
    let mut p = page("https://a.example/1", "x", 0);
    p.content_length = Some("12a".to_string());
    store.save(&p);
    assert_eq!(store.pages()[0].content_length, None);
    let mut p = page("https://a.example/2", "x", 0);
    p.content_length = None;
    store.save(&p);
    assert_eq!(store.pages()[1].content_length, None);
    let mut p = page("https://a.example/3", "x", 0);
    p.content_length = Some("+0042".to_string());
    store.save(&p);
    assert_eq!(store.pages()[2].content_length, Some(42));
}

#[test]
fn host_policy_defaults_to_allowed() {
    let mut store = FrontierStore::new(1);
    let u = WebUrl::parse("https://a.example/x").unwrap();
    assert_eq!(store.check_robot_policy(&u), Ok(true));
    assert_eq!(store.domains().len(), 1);
    assert_eq!(store.domains()[0].host, "a.example");
    assert!(store.domains()[0].allow_crawl);
    assert_eq!(store.check_robot_policy(&u), Ok(true));
    assert_eq!(store.domains().len(), 1);
    assert!(store.restore_domain(DomainRecord {
        host: "blocked.example".to_string(),
        allow_crawl: false,
        robots_text: None,
        robots_fetched_at: None,
    }));
    let b = WebUrl::parse("https://blocked.example/").unwrap();
    assert_eq!(store.check_robot_policy(&b), Ok(false));
    let m = WebUrl::parse("mailto:a@b.example").unwrap();
    assert_eq!(store.check_robot_policy(&m), Err(StoreError::NoHost));
}

#[test]
fn robots_text_is_kept_per_host() {
    let mut store = FrontierStore::new(1);
    assert_eq!(store.robots_text("a.example"), None);
    store.set_robots_text("a.example", Some("User-agent: *\n".to_string()), 99);
    assert_eq!(store.robots_text("a.example").as_deref(), Some("User-agent: *\n"));
    assert_eq!(store.domains()[0].robots_fetched_at, Some(99));
    assert!(store.domains()[0].allow_crawl);
    assert_eq!(store.robots_text("b.example"), None);
}

#[test]
fn save_with_takes_what_was_read_out_of_the_body() {
    let mut store = FrontierStore::new(4);
    let facts = PageFacts {
        title: Some("T".to_string()),
        description: None,
        content_hash: "00".to_string(),
        anchors: vec![
            Anchor {
                href: "/next".to_string(),
                text: " Next ".to_string(),
                title: None,
                rel: None,
                target: None,
            },
            Anchor {
                href: String::new(),
                text: "empty".to_string(),
                title: None,
                rel: None,
                target: None,
            },
        ],
    };
    store.save_with(&page("https://a.example/p", "body", 1), facts);
    assert_eq!(store.pages().len(), 1);
    assert_eq!(store.pages()[0].title.as_deref(), Some("T"));
    assert_eq!(store.pages()[0].content_hash, "00");
    assert_eq!(store.pages()[0].html_content, "body");
    assert_eq!(store.links().len(), 1);
    assert_eq!(store.links()[0].target_url, "https://a.example/next");
    assert_eq!(store.links()[0].link_text.as_deref(), Some("Next"));
    let read = PageFacts::of("<title>Read</title><a href=\"/x\">x</a>");
    assert_eq!(read.title.as_deref(), Some("Read"));
    assert_eq!(read.description, None);
    assert_eq!(read.anchors.len(), 1);
    assert_eq!(read.content_hash.len(), 64);
}
