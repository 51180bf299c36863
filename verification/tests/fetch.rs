use crawler_core::fetch::{
    FetchError, FetchStep, Fetcher, ResponseHead, INITIAL_BACKOFF_MS, MAX_REDIRECTS, MAX_RETRIES,
};
use crawler_core::web_url::WebUrl;

fn url(s: &str) -> WebUrl {
    WebUrl::parse(s).unwrap()
}

fn head(status: u16) -> ResponseHead {
    ResponseHead { status, reason: "Reason".to_string(), content_type: None, content_length: None, location: None }
}

fn redirect(to: &str) -> ResponseHead {
    ResponseHead {
        status: 302,
        reason: "Found".to_string(),
        content_type: None,
        content_length: None,
        location: Some(to.to_string()),
    }
}

fn ok_html() -> ResponseHead {
    ResponseHead {
        status: 200,
        reason: "OK".to_string(),
        content_type: Some("text/html; charset=utf-8".to_string()),
        content_length: Some("13".to_string()),
        location: None,
    }
}

#[test]
fn starts_with_full_budget() {
    let f = Fetcher::new(url("https://example.com/"), 7);
    assert_eq!(f.redirects_remaining, MAX_REDIRECTS);
    assert_eq!(f.redirects_remaining, 5);
    assert_eq!(f.retries_remaining, MAX_RETRIES);
    assert_eq!(f.retries_remaining, 3);
    assert_eq!(f.backoff_ms, INITIAL_BACKOFF_MS);
    assert_eq!(f.backoff_ms, 500);
    assert_eq!(f.current.href, "https://example.com/");
    assert_eq!(f.started_ms, 7);
}

#[test]
fn five_redirects_succeed() {
    let mut f = Fetcher::new(url("https://example.com/0"), 0);
    for i in 1..=5 {
        match f.on_response(redirect(&format!("/{}", i))) {
            FetchStep::Request { fetcher, delay_ms } => {
                assert_eq!(delay_ms, 0);
                assert_eq!(fetcher.current.href, format!("https://example.com/{}", i));
                f = fetcher;
            }
            other => panic!("redirect {} not followed: {:?}", i, other),
        }
    }
    match f.on_response(ok_html()) {
        FetchStep::ReadBody { page } => {
            let page = page.finish("<html></html>".to_string(), 1234);
            assert_eq!(page.url.href, "https://example.com/0");
            assert_eq!(page.final_url.href, "https://example.com/5");
            assert_eq!(page.status_code, 200);
            assert_eq!(page.content_type.as_deref(), Some("text/html; charset=utf-8"));
            assert_eq!(page.content_length.as_deref(), Some("13"));
            assert_eq!(page.html_content, "<html></html>");
            assert_eq!(page.fetched_duration_ms, 1234);
            assert_eq!(page.timestamp_ms, 1234);
        }
        other => panic!("page not accepted: {:?}", other),
    }
}

#[test]
fn six_redirects_fail() {
    let mut f = Fetcher::new(url("https://example.com/0"), 0);
    for i in 1..=5 {
        match f.on_response(redirect(&format!("https://example.com/{}", i))) {
            FetchStep::Request { fetcher, .. } => f = fetcher,
            other => panic!("redirect {} not followed: {:?}", i, other),
        }
    }
    match f.on_response(redirect("https://example.com/6")) {
        FetchStep::Fail { error } => assert!(matches!(error, FetchError::TooManyRedirects)),
        other => panic!("sixth redirect followed: {:?}", other),
    }
}

#[test]
fn retries_on_503_with_doubling_backoff() {
    let f = Fetcher::new(url("https://example.com/"), 0);
    let f = match f.on_response(head(503)) {
        FetchStep::Request { fetcher, delay_ms } => {
            assert_eq!(delay_ms, 500);
            assert_eq!(fetcher.current.href, "https://example.com/");
            fetcher
        }
        other => panic!("no retry: {:?}", other),
    };
    let f = match f.on_response(head(503)) {
        FetchStep::Request { fetcher, delay_ms } => {
            assert_eq!(delay_ms, 1000);
            fetcher
        }
        other => panic!("no retry: {:?}", other),
    };
    assert!(matches!(f.on_response(ok_html()), FetchStep::ReadBody { .. }));
}

#[test]
fn server_error_after_three_retries() {
    let mut f = Fetcher::new(url("https://example.com/"), 0);
    let mut delays = Vec::new();
    for _ in 0..3 {
        match f.on_response(head(500)) {
            FetchStep::Request { fetcher, delay_ms } => {
                delays.push(delay_ms);
                f = fetcher;
            }
            other => panic!("no retry: {:?}", other),
        }
    }
    assert_eq!(delays, vec![500, 1000, 2000]);
    match f.on_response(head(500)) {
        FetchStep::Fail { error } => {
            assert!(matches!(error, FetchError::ServerError { status: 500 }))
        }
        other => panic!("retried too often: {:?}", other),
    }
}

#[test]
fn network_error_after_three_retries() {
    let mut f = Fetcher::new(url("https://example.com/"), 0);
    for _ in 0..3 {
        match f.on_network_error() {
            FetchStep::Request { fetcher, .. } => f = fetcher,
            other => panic!("no retry: {:?}", other),
        }
    }
    match f.on_network_error() {
        FetchStep::Fail { error } => assert!(matches!(error, FetchError::NetworkError)),
        other => panic!("retried too often: {:?}", other),
    }
}

#[test]
fn redirect_resets_retries() {
    let f = Fetcher::new(url("https://example.com/"), 0);
    let f = match f.on_response(head(503)) {
        FetchStep::Request { fetcher, .. } => fetcher,
        other => panic!("no retry: {:?}", other),
    };
    assert_eq!(f.retries_remaining, 2);
    let f = match f.on_response(redirect("/next")) {
        FetchStep::Request { fetcher, .. } => fetcher,
        other => panic!("not followed: {:?}", other),
    };
    assert_eq!(f.retries_remaining, 3);
    assert_eq!(f.redirects_remaining, 4);
    assert_eq!(f.backoff_ms, 1000);
}

#[test]
fn other_statuses_fail_at_once() {
    let f = Fetcher::new(url("https://example.com/"), 0);
    match f.on_response(head(404)) {
        FetchStep::Fail { error } => match error {
            FetchError::HttpError { status, reason } => {
                assert_eq!(status, 404);
                assert_eq!(reason, "Reason");
            }
            other => panic!("wrong error: {:?}", other),
        },
        other => panic!("not failed: {:?}", other),
    }
}

#[test]
fn non_html_is_refused() {
    let f = Fetcher::new(url("https://example.com/"), 0);
    let mut h = ok_html();
    h.content_type = Some("application/pdf".to_string());
    assert!(matches!(f.on_response(h), FetchStep::Fail { error: FetchError::NotHtml }));
    let f = Fetcher::new(url("https://example.com/"), 0);
    assert!(matches!(f.on_response(head(200)), FetchStep::Fail { error: FetchError::NotHtml }));
}

#[test]
fn redirect_without_usable_location_fails() {
    let f = Fetcher::new(url("https://example.com/"), 0);
    let mut h = head(301);
    h.location = None;
    assert!(matches!(
        f.on_response(h),
        FetchStep::Fail { error: FetchError::HttpError { status: 301, .. } }
    ));
    let f = Fetcher::new(url("https://example.com/"), 0);
    assert!(matches!(
        f.on_response(redirect("http://[bad")),
        FetchStep::Fail { error: FetchError::InvalidUrl }
    ));
}

#[test]
fn follow_takes_the_resolved_target() {
    let f = Fetcher::new(url("https://example.com/"), 0);
    match f.follow(redirect("ignored"), Some(url("https://other.example/x"))) {
        FetchStep::Request { fetcher, delay_ms } => {
            assert_eq!(delay_ms, 0);
            assert_eq!(fetcher.current.href, "https://other.example/x");
            assert_eq!(fetcher.url.href, "https://example.com/");
            assert_eq!(fetcher.redirects_remaining, 4);
        }
        other => panic!("not followed: {:?}", other),
    }
    let f = Fetcher::new(url("https://example.com/"), 0);
    assert!(matches!(
        f.follow(redirect("x"), None),
        FetchStep::Fail { error: FetchError::InvalidUrl }
    ));
}
