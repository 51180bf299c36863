use crawler_core::extract_metadata::{alternate_languages, split_keywords, PageMetadata};

const PAGE: &str = r#"<!DOCTYPE html>
<html>
<head>
  <meta charset="utf-8">
  <title>  The <b>Title</b>  </title>
  <meta name="description" content="  A page.  ">
  <meta name="keywords" content="one, two ,three,">
  <meta name="language" content="en">
  <meta name="robots" content="index, follow">
  <meta name="author" content="Ann">
  <meta property="og:type" content="article">
  <meta property="og:url" content="https://example.com/og">
  <meta property="og:image" content="not a url">
  <meta name="twitter:card" content="summary">
  <meta name="twitter:image" content="https://example.com/t.png">
  <meta name="viewport" content="width=device-width">
  <meta name="apple-mobile-web-app-capable" content="YES">
  <link rel="canonical" href="https://example.com/canonical">
  <link rel="alternate" hreflang="de" href="https://example.com/de">
  <link rel="alternate" hreflang="fr" href="https://example.com/fr">
  <link rel="alternate" hreflang="de" href="https://example.com/de2">
  <link rel="alternate" hreflang="xx" href="/relative">
  <link rel="next" href="https://example.com/2">
  <link rel="icon" href="/favicon.ico">
</head>
<body></body>
</html>"#;

#[test]
fn reads_basic_metadata() {
    let m = PageMetadata::extract(PAGE);
    assert_eq!(m.basic.title.as_deref(), Some("The &lt;b&gt;Title&lt;/b&gt;"));
    assert_eq!(m.basic.description.as_deref(), Some("A page."));
    assert_eq!(
        m.basic.keywords,
        Some(vec!["one".to_string(), "two".to_string(), "three".to_string(), String::new()])
    );
    assert_eq!(m.basic.charset.as_deref(), Some("utf-8"));
    assert_eq!(m.basic.language.as_deref(), Some("en"));
}

#[test]
fn reads_seo_and_social_metadata() {
    let m = PageMetadata::extract(PAGE);
    assert_eq!(m.seo.robots.as_deref(), Some("index, follow"));
    assert_eq!(m.seo.canonical.map(|u| u.href).as_deref(), Some("https://example.com/canonical"));
    assert_eq!(m.seo.author.as_deref(), Some("Ann"));
    assert_eq!(m.seo.publisher, None);
    assert_eq!(m.seo.creator, None);
    assert_eq!(m.open_graph.og_type.as_deref(), Some("article"));
    assert_eq!(m.open_graph.og_url.map(|u| u.href).as_deref(), Some("https://example.com/og"));
    assert!(m.open_graph.og_image.is_none());
    assert_eq!(m.open_graph.og_title, None);
    assert_eq!(m.twitter_card.twitter_card.as_deref(), Some("summary"));
    assert_eq!(
        m.twitter_card.twitter_image.map(|u| u.href).as_deref(),
        Some("https://example.com/t.png")
    );
    assert!(m.twitter_card.twitter_url.is_none());
}

#[test]
fn reads_viewport_and_links() {
    let m = PageMetadata::extract(PAGE);
    assert_eq!(m.viewport.viewport.as_deref(), Some("width=device-width"));
    assert_eq!(m.viewport.theme_color, None);
    assert_eq!(m.viewport.apple_mobile_web_app_capable, Some(true));
    assert_eq!(m.links.canonical.map(|u| u.href).as_deref(), Some("https://example.com/canonical"));
    let alternates: Vec<(String, String)> = m
        .links
        .alternate_languages
        .iter()
        .map(|a| (a.lang.clone(), a.url.href.clone()))
        .collect();
    assert_eq!(
        alternates,
        vec![
            ("de".to_string(), "https://example.com/de2".to_string()),
            ("fr".to_string(), "https://example.com/fr".to_string()),
        ]
    );
    assert!(m.links.prev.is_none());
    assert_eq!(m.links.next.map(|u| u.href).as_deref(), Some("https://example.com/2"));
    assert!(m.links.icon.is_none());
    assert!(m.links.apple_touch_icon.is_none());
}

#[test]
fn empty_page_has_no_metadata() {
    let m = PageMetadata::extract("");
    assert_eq!(m.basic.title, None);
    assert_eq!(m.basic.description, None);
    assert_eq!(m.basic.keywords, None);
    assert_eq!(m.basic.charset, None);
    assert!(m.seo.canonical.is_none());
    assert_eq!(m.viewport.apple_mobile_web_app_capable, None);
    assert!(m.links.alternate_languages.is_empty());
}

#[test]
fn keywords_are_split_at_commas() {
    let split = |s: &str| split_keywords(&s.chars().collect());
    assert_eq!(split(""), vec![String::new()]);
    assert_eq!(split("a"), vec!["a".to_string()]);
    assert_eq!(split(" a , b"), vec!["a".to_string(), "b".to_string()]);
    assert_eq!(split(","), vec![String::new(), String::new()]);
}

#[test]
fn later_alternate_replaces_earlier() {
    let pair = |l: Option<&str>, h: Option<&str>| (l.map(str::to_string), h.map(str::to_string));
    let found = alternate_languages(vec![
        pair(Some("en"), Some("https://e.example/1")),
        pair(None, Some("https://e.example/2")),
        pair(Some("de"), None),
        pair(Some("en"), Some("https://e.example/3")),
        pair(Some("it"), Some("nope")),
    ]);
    assert_eq!(found.len(), 1);
    assert_eq!(found[0].lang, "en");
    assert_eq!(found[0].url.href, "https://e.example/3");
}

#[test]
fn default_metadata_says_nothing() {
    let m = PageMetadata::default();
    assert_eq!(m.basic.title, None);
    assert_eq!(m.basic.keywords, None);
    assert!(m.seo.canonical.is_none());
    assert_eq!(m.open_graph.og_type, None);
    assert_eq!(m.twitter_card.twitter_card, None);
    assert_eq!(m.viewport.apple_mobile_web_app_capable, None);
    assert!(m.links.alternate_languages.is_empty());
}
