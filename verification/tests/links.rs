use crawler_core::extract_links::{classify_link, ExtractLinks, LinkClass, LinkInfo};
use crawler_core::web_url::WebUrl;

fn base() -> WebUrl {
    WebUrl::parse("https://example.com/docs/index.html").unwrap()
}

fn link(url: &str) -> LinkInfo {
    LinkInfo { url: url.to_string(), text: String::new(), title: None, rel: None, target: None }
}

#[test]
fn new_is_empty() {
    let links = ExtractLinks::new();
    assert!(links.internal.is_empty());
    assert!(links.external.is_empty());
    assert!(links.mailto.is_empty());
    assert!(links.phone.is_empty());
    assert!(links.anchor.is_empty());
    assert!(links.javascript.is_empty());
}

#[test]
fn classifies_by_scheme_and_domain() {
    let b = base();
    assert_eq!(
        classify_link(&b, "javascript:void(0)"),
        Some((LinkClass::Javascript, "javascript:void(0)".to_string()))
    );
    assert_eq!(
        classify_link(&b, "mailto:a@example.com"),
        Some((LinkClass::Mailto, "mailto:a@example.com".to_string()))
    );
    assert_eq!(classify_link(&b, "tel:+123"), Some((LinkClass::Phone, "tel:+123".to_string())));
    assert_eq!(
        classify_link(&b, "#top"),
        Some((LinkClass::Anchor, "https://example.com/docs/index.html#top".to_string()))
    );
    assert_eq!(
        classify_link(&b, "/about"),
        Some((LinkClass::Internal, "https://example.com/about".to_string()))
    );
    assert_eq!(
        classify_link(&b, "page2.html"),
        Some((LinkClass::Internal, "https://example.com/docs/page2.html".to_string()))
    );
    assert_eq!(
        classify_link(&b, "https://other.org/x"),
        Some((LinkClass::External, "https://other.org/x".to_string()))
    );
    assert_eq!(classify_link(&b, "http://[bad"), None);
}

#[test]
fn links_without_domain() {
    let b = WebUrl::parse("http://127.0.0.1:8000/index.html").unwrap();
    assert_eq!(
        classify_link(&b, "/a"),
        Some((LinkClass::Internal, "http://127.0.0.1:8000/a".to_string()))
    );
    assert_eq!(
        classify_link(&b, "./a"),
        Some((LinkClass::Internal, "http://127.0.0.1:8000/a".to_string()))
    );
    assert_eq!(classify_link(&b, "a"), None);
}

#[test]
fn extract_sorts_and_deduplicates() {
    let html = r##"<html><head><title>T</title></head><body>
        <a href="/a" title="first" rel="nofollow" target="_blank">  One  </a>
        <a href="/a">Again</a>
        <a href="https://other.org/">Other</a>
        <a href="mailto:x@y.z">Mail</a>
        <a href="tel:123">Call</a>
        <a href="#frag">Frag</a>
        <a href="javascript:go()">Js</a>
        <a href="">Empty</a>
        <a>No href</a>
        <a href="/b"><b>Bold</b> and <i>more</i></a>
    </body></html>"##;
    let links = ExtractLinks::extract(&base(), html);
    assert_eq!(links.internal.len(), 2);
    assert_eq!(
        links.internal[0],
        LinkInfo {
            url: "https://example.com/a".to_string(),
            text: "One".to_string(),
            title: Some("first".to_string()),
            rel: Some("nofollow".to_string()),
            target: Some("_blank".to_string()),
        }
    );
    assert_eq!(links.internal[1].url, "https://example.com/b");
    assert_eq!(links.internal[1].text, "Bold and more");
    assert_eq!(links.external.len(), 1);
    assert_eq!(links.external[0].url, "https://other.org/");
    assert_eq!(links.mailto.len(), 1);
    assert_eq!(links.mailto[0].url, "mailto:x@y.z");
    assert_eq!(links.phone.len(), 1);
    assert_eq!(links.anchor.len(), 1);
    assert_eq!(links.anchor[0].url, "https://example.com/docs/index.html#frag");
    assert_eq!(links.javascript.len(), 1);
}

#[test]
fn link_text_is_cut_after_100_characters() {
    let long = "x".repeat(250);
    let html = format!("<a href=\"/a\">  {}  </a>", long);
    let links = ExtractLinks::extract(&base(), &html);
    assert_eq!(links.internal.len(), 1);
    assert_eq!(links.internal[0].text, "x".repeat(100));
}

#[test]
fn deduplicate_keeps_first_of_each_target() {
    let mut links = ExtractLinks::new();
    let mut first = link("https://example.com/a");
    first.text = "first".to_string();
    let mut second = link("https://example.com/a");
    second.text = "second".to_string();
    links.internal = vec![first.clone(), link("https://example.com/b"), second];
    links.external = vec![link("https://o.org/"), link("https://o.org/")];
    links.deduplicate();
    assert_eq!(links.internal, vec![first, link("https://example.com/b")]);
    assert_eq!(links.external, vec![link("https://o.org/")]);
    let again = links.deduplicate_vec(&links.internal);
    assert_eq!(again, links.internal);
}

#[test]
fn extracting_twice_gives_the_same_links() {
    let html = "<a href=\"/a\">A</a><a href=\"/b\">B</a><a href=\"/a\">A2</a>";
    let one = ExtractLinks::extract(&base(), html);
    let two = ExtractLinks::extract(&base(), html);
    assert_eq!(one.internal, two.internal);
    assert_eq!(one.external, two.external);
}

#[test]
fn anchors_are_made_of_elements() {
    let element = |attrs: Vec<Option<&str>>, text: &str| crawler_core::html::Element {
        attrs: attrs.into_iter().map(|a| a.map(str::to_string)).collect(),
        text: text.to_string(),
    };
    let found = vec![
        element(vec![Some("/a"), Some("t"), None, Some("_blank")], " A "),
        element(vec![None, None, None, None], "none"),
        element(vec![Some("/short")], "short"),
    ];
    let anchors = crawler_core::html::anchors_of(&found);
    assert_eq!(anchors.len(), 3);
    assert_eq!(anchors[0].href, "/a");
    assert_eq!(anchors[0].text, " A ");
    assert_eq!(anchors[0].title.as_deref(), Some("t"));
    assert_eq!(anchors[0].rel, None);
    assert_eq!(anchors[0].target.as_deref(), Some("_blank"));
    assert_eq!(anchors[1].href, "");
    assert_eq!(anchors[2].href, "/short");
    assert_eq!(anchors[2].title, None);
}
