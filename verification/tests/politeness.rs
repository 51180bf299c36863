use crawler_core::check_robots::RobotsFetchResult;
use crawler_core::politeness::{robots_url, Politeness};
use crawler_core::web_url::WebUrl;

#[test]
fn robots_url_keeps_scheme_host_and_port() {
    let u = WebUrl::parse("https://example.com/a/b?c=d").unwrap();
    assert_eq!(robots_url(&u).as_deref(), Some("https://example.com/robots.txt"));
    let u = WebUrl::parse("http://example.com:8080/a").unwrap();
    assert_eq!(robots_url(&u).as_deref(), Some("http://example.com:8080/robots.txt"));
    let u = WebUrl::parse("http://127.0.0.1:65535/").unwrap();
    assert_eq!(robots_url(&u).as_deref(), Some("http://127.0.0.1:65535/robots.txt"));
    let u = WebUrl::parse("https://example.com:443/").unwrap();
    assert_eq!(robots_url(&u).as_deref(), Some("https://example.com/robots.txt"));
    let u = WebUrl::parse("mailto:a@example.com").unwrap();
    assert_eq!(robots_url(&u), None);
}

#[test]
fn no_wait_for_unknown_hosts() {
    let p = Politeness::new();
    assert_eq!(p.wait_ms("a.example", 1000), 0);
    assert_eq!(p.delay_ms("a.example"), 0);
    assert!(!p.has_robots("a.example"));
    assert!(p.permits("a.example", "/anything", "Bot"));
}

#[test]
fn waits_for_the_rest_of_the_delay() {
    let mut p = Politeness::new();
    let policy = RobotsFetchResult::from_response(200, "User-agent: *\nCrawl-delay: 2\n".to_string());
    p.install_robots("a.example", policy);
    assert!(p.has_robots("a.example"));
    assert_eq!(p.delay_ms("a.example"), 2000);
    assert_eq!(p.wait_ms("a.example", 5000), 0);
    p.record_fetch("a.example", 5000);
    assert_eq!(p.wait_ms("a.example", 5000), 2000);
    assert_eq!(p.wait_ms("a.example", 5500), 1500);
    assert_eq!(p.wait_ms("a.example", 6999), 1);
    assert_eq!(p.wait_ms("a.example", 7000), 0);
    assert_eq!(p.wait_ms("a.example", 9000), 0);
    assert_eq!(p.wait_ms("a.example", 4000), 3000);
    assert_eq!(p.wait_ms("b.example", 5000), 0);
    p.record_fetch("b.example", 5000);
    assert_eq!(p.wait_ms("b.example", 5000), 0);
}

#[test]
fn status_decides_the_policy() {
    assert!(matches!(
        RobotsFetchResult::from_response(200, String::new()),
        RobotsFetchResult::Success(_)
    ));
    assert!(matches!(
        RobotsFetchResult::from_response(404, "ignored".to_string()),
        RobotsFetchResult::NotFound
    ));
    assert!(matches!(
        RobotsFetchResult::from_response(403, String::new()),
        RobotsFetchResult::Forbidden
    ));
    assert!(matches!(
        RobotsFetchResult::from_response(500, String::new()),
        RobotsFetchResult::Unavailable
    ));
    let mut p = Politeness::new();
    p.install_robots("gone.example", RobotsFetchResult::from_response(404, String::new()));
    p.install_robots("closed.example", RobotsFetchResult::from_response(403, String::new()));
    p.install_robots("down.example", RobotsFetchResult::from_response(503, String::new()));
    p.install_robots(
        "ruled.example",
        RobotsFetchResult::from_response(200, "User-agent: *\nDisallow: /private\n".to_string()),
    );
    assert!(p.permits("gone.example", "/x", "Bot"));
    assert!(!p.permits("closed.example", "/x", "Bot"));
    assert!(p.permits("down.example", "/x", "Bot"));
    assert!(p.permits("ruled.example", "/x", "Bot"));
    assert!(!p.permits("ruled.example", "/private/x", "Bot"));
    assert_eq!(p.delay_ms("gone.example"), 0);
}
