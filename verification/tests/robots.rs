use crawler_core::check_robots::pattern::matches_pattern;
use crawler_core::check_robots::Robot;

fn robot(text: &str) -> Robot {
    Robot::new(text.to_string())
}

#[test]
fn longest_pattern_wins() {
    let r = robot("User-agent: *\nDisallow: /\nAllow: /public/");
    assert!(r.allow("/public/x", "Bot"));
    assert!(!r.allow("/private", "Bot"));
    assert!(r.allow("https://example.com/public/x", "Bot"));
    assert!(!r.allow("https://example.com/private", "Bot"));
    assert!(r.allow_path("/public/x", "Bot"));
    assert!(!r.allow_path("/private", "Bot"));
}

#[test]
fn wildcard_and_end_anchor() {
    let r = robot("User-agent: *\nDisallow: /*.pdf$");
    assert!(!r.allow("/a/b.pdf", "Bot"));
    assert!(r.allow("/a/b.pdfx", "Bot"));
    assert!(!r.allow_path("/a/b.pdf", "Bot"));
    assert!(r.allow_path("/a/b.pdfx", "Bot"));
    assert!(!r.allow("http://h.example/a/b.pdf", "Bot"));
    assert!(r.allow("http://h.example/a/b.pdfx", "Bot"));
}

#[test]
fn most_specific_group_is_used() {
    let r = robot("User-agent: *\nDisallow: /\nUser-agent: GoodBot\n");
    assert!(r.allow("/x", "GoodBot"));
    assert!(!r.allow("/x", "OtherBot"));
    assert!(r.allow_path("/x", "GoodBot"));
    assert!(!r.allow_path("/x", "OtherBot"));
    assert!(r.allow("https://example.com/x", "GoodBot"));
    assert!(!r.allow("https://example.com/x", "OtherBot"));
}

#[test]
fn pattern_grammar() {
    assert!(matches_pattern("/a", "/abc"));
    assert!(!matches_pattern("/a$", "/abc"));
    assert!(matches_pattern("/a*c$", "/abc"));
    assert!(matches_pattern("/*/x", "/a/b/x/y"));
    assert!(!matches_pattern("/*/x$", "/a/b/x/y"));
    assert!(matches_pattern("", "/anything"));
    assert!(matches_pattern("$", ""));
    assert!(!matches_pattern("$", "/"));
    assert!(matches_pattern("/a$b", "/a$bc"));
}

#[test]
fn parsing_is_lenient() {
    let text = "# comment\n\nDisallow: /before\nUser-Agent: a\nbogus line\n: novalue\nALLOW: /x\n\
                crawl-delay: 1.5\nRequest-rate: 0.25\nSitemap: https://e.example/s.xml\n\
                user-agent:*\r\nDisallow:/y\r\nCrawl-delay: soon\nUnknown: 1\n";
    let r = robot(text);
    assert_eq!(r.sitemaps(), vec!["https://e.example/s.xml".to_string()]);
    let a = r.find_group("a").unwrap();
    assert_eq!(a.user_agents, vec!["a".to_string()]);
    assert_eq!(a.rules.len(), 1);
    assert_eq!(a.rules[0].pattern, "/x");
    assert!(a.rules[0].allow);
    assert_eq!(a.crawl_delay, Some(1500));
    assert_eq!(a.request_rate, Some(250));
    let star = r.find_group("zzz").unwrap();
    assert_eq!(star.user_agents, vec!["*".to_string()]);
    assert_eq!(star.rules.len(), 1);
    assert_eq!(star.rules[0].pattern, "/y");
    assert!(!star.rules[0].allow);
    assert_eq!(star.crawl_delay, None);
    assert_eq!(r.crawl_delay("a"), Some(1500));
    assert_eq!(r.request_rate("a"), Some(250));
    assert_eq!(r.crawl_delay("other"), None);
    assert_eq!(r.find_group_index("A"), Some(0));
    assert_eq!(r.find_group_index("other"), Some(1));
}

#[test]
fn oversize_file_is_empty() {
    let mut text = String::from("User-agent: *\nDisallow: /\n");
    while text.len() <= 500 * 1024 {
        text.push_str("# padding padding padding padding padding padding padding\n");
    }
    let r = robot(&text);
    assert!(r.find_group("Bot").is_none());
    assert!(r.allow_path("/x", "Bot"));
    assert!(r.sitemaps().is_empty());
    let mut fits = String::from("User-agent: *\nDisallow: /\n");
    while fits.len() < 500 * 1024 {
        fits.push('#');
    }
    assert_eq!(fits.len(), 500 * 1024);
    assert!(!robot(&fits).allow_path("/x", "Bot"));
}

#[test]
fn group_selection_prefers_exact_then_longest_prefix_then_star() {
    let r = robot(
        "User-agent: *\nDisallow: /star\n\nUser-agent: Good\nDisallow: /good\n\n\
         User-agent: GoodBot\nDisallow: /goodbot\n\nUser-agent: goodbot-news\nDisallow: /news\n",
    );
    assert_eq!(r.find_group_index("goodbot"), Some(2));
    assert_eq!(r.find_group_index("GOODBOT-NEWS"), Some(3));
    assert_eq!(r.find_group_index("GoodBot/2.1"), Some(2));
    assert_eq!(r.find_group_index("Goodness"), Some(1));
    assert_eq!(r.find_group_index("Bad"), Some(0));
    assert!(!r.allow_path("/goodbot", "GoodBot/2.1"));
    assert!(r.allow_path("/good", "GoodBot/2.1"));
    let none = robot("User-agent: Only\nDisallow: /\n");
    assert_eq!(none.find_group_index("Other"), None);
    assert!(none.allow_path("/x", "Other"));
    assert!(none.get_group_info("Other").is_none());
}

#[test]
fn ties_go_to_allow_and_empty_patterns_say_nothing() {
    let r = robot("User-agent: *\nDisallow: /a\nAllow: /a\nDisallow:\nDisallow: /b*\nAllow: /b\n");
    assert!(r.allow_path("/a", "Bot"));
    assert!(r.allow_path("/c", "Bot"));
    assert!(!r.allow_path("/bx", "Bot"));
    let group = r.find_group("Bot").unwrap();
    let found = r.find_longest_matching_rule(&group.rules, "/a/1").unwrap();
    assert_eq!(found.0.pattern, "/a");
    assert!(found.0.allow);
    assert_eq!(found.1, "pattern '/a'");
    assert!(r.find_longest_matching_rule(&group.rules, "/zzz").is_none());
    let info = r.get_group_info("Bot").unwrap();
    assert_eq!(info.user_agents, vec!["*".to_string()]);
    assert_eq!(info.rule_count, 5);
    assert_eq!(info.allow_count, 2);
    assert_eq!(info.disallow_count, 3);
    assert_eq!(info.crawl_delay, None);
}

#[test]
fn a_target_that_is_no_url_is_read_as_a_path() {
    let r = robot("User-agent: *\nDisallow: /private\n");
    assert!(!r.allow("/private/x?y=1", "Bot"));
    assert!(r.allow("/public", "Bot"));
    assert!(!r.allow("https://example.com/private/x?y=1", "Bot"));
    assert!(r.allow("https://example.com/public?next=/private", "Bot"));
    assert!(r.allow("private", "Bot"));
    let all = robot("User-agent: *\nDisallow: /\n");
    assert!(!all.allow("/", "Bot"));
    assert!(!all.allow("https://example.com", "Bot"));
}

#[test]
fn parsing_twice_agrees() {
    let text = "User-agent: *\nDisallow: /private\nAllow: /private/open\n";
    let a = robot(text);
    let b = robot(text);
    for path in ["/", "/private", "/private/open", "/private/open/x", "/other"] {
        for agent in ["Bot", "*", "other"] {
            assert_eq!(a.allow_path(path, agent), b.allow_path(path, agent));
        }
    }
}

#[test]
fn sitemaps_are_kept_once() {
    let r = robot(
        "Sitemap: https://e.example/a.xml\nUser-agent: *\nSitemap: https://e.example/b.xml\n\
         sitemap: https://e.example/a.xml\n",
    );
    assert_eq!(
        r.sitemaps(),
        vec!["https://e.example/a.xml".to_string(), "https://e.example/b.xml".to_string()]
    );
}

#[test]
fn crawl_delay_is_read_as_a_floating_point_number() {
    let r = robot("User-agent: a\nCrawl-delay: 1e1\nUser-agent: b\nCrawl-delay: +0.5\nUser-agent: c\nCrawl-delay: -3\nUser-agent: d\nCrawl-delay: ten\n");
    assert_eq!(r.crawl_delay("a"), Some(10_000));
    assert_eq!(r.crawl_delay("b"), Some(500));
    assert_eq!(r.crawl_delay("c"), Some(0));
    assert_eq!(r.crawl_delay("d"), None);
}
