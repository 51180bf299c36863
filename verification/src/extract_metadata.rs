//! The metadata of a page: what its `<title>`, `<meta>` and `<link>`
//! elements say.

use vstd::prelude::*;
use crate::html::{
    html_attr_pairs, html_first_attr, html_first_inner_html, select_attr_pairs, select_first_attr,
    select_first_inner_html,
};
use crate::text::{
    first_index_of, from_chars, lemma_first_index_of, lowercase, same_chars, slice_of, to_chars,
    to_lower, trim, trimmed,
};
use crate::web_url::{url_parse, WebUrl, WebUrlView};

verus! {

/// Basic metadata about the page.
#[derive(Debug)]
pub struct BasicMetadata {
    /// The page title from the `<title>` tag.
    pub title: Option<String>,
    /// The page description from the `description` meta tag.
    pub description: Option<String>,
    /// Keywords associated with the page from the `keywords` meta tag.
    pub keywords: Option<Vec<String>>,
    /// Character encoding of the page from the `charset` meta tag.
    pub charset: Option<String>,
    /// The primary language of the page from the `language` meta tag.
    pub language: Option<String>,
}

/// The mathematical value of a [`BasicMetadata`].
pub struct BasicMetadataView {
    pub title: Option<Seq<char>>,
    pub description: Option<Seq<char>>,
    pub keywords: Option<Seq<Seq<char>>>,
    pub charset: Option<Seq<char>>,
    pub language: Option<Seq<char>>,
}

impl View for BasicMetadata {
    type V = BasicMetadataView;

    open spec fn view(&self) -> BasicMetadataView {
        BasicMetadataView {
            title: self.title.deep_view(),
            description: self.description.deep_view(),
            keywords: self.keywords.deep_view(),
            charset: self.charset.deep_view(),
            language: self.language.deep_view(),
        }
    }
}

/// Crawler and SEO related metadata.
#[derive(Debug)]
pub struct SeoMetadata {
    /// Robots directive from the `robots` meta tag (e.g. "index, follow").
    pub robots: Option<String>,
    /// The canonical URL of the page.
    pub canonical: Option<WebUrl>,
    pub author: Option<String>,
    pub publisher: Option<String>,
    pub creator: Option<String>,
}

/// The mathematical value of a [`SeoMetadata`].
pub struct SeoMetadataView {
    pub robots: Option<Seq<char>>,
    pub canonical: Option<WebUrlView>,
    pub author: Option<Seq<char>>,
    pub publisher: Option<Seq<char>>,
    pub creator: Option<Seq<char>>,
}

impl View for SeoMetadata {
    type V = SeoMetadataView;

    open spec fn view(&self) -> SeoMetadataView {
        SeoMetadataView {
            robots: self.robots.deep_view(),
            canonical: self.canonical.deep_view(),
            author: self.author.deep_view(),
            publisher: self.publisher.deep_view(),
            creator: self.creator.deep_view(),
        }
    }
}

/// Open Graph metadata for social media sharing.
#[derive(Debug)]
pub struct OpenGraphMetadata {
    pub og_type: Option<String>,
    pub og_title: Option<String>,
    pub og_description: Option<String>,
    pub og_url: Option<WebUrl>,
    pub og_image: Option<WebUrl>,
    pub og_site_name: Option<String>,
    pub og_locale: Option<String>,
}

/// The mathematical value of an [`OpenGraphMetadata`].
pub struct OpenGraphMetadataView {
    pub og_type: Option<Seq<char>>,
    pub og_title: Option<Seq<char>>,
    pub og_description: Option<Seq<char>>,
    pub og_url: Option<WebUrlView>,
    pub og_image: Option<WebUrlView>,
    pub og_site_name: Option<Seq<char>>,
    pub og_locale: Option<Seq<char>>,
}

impl View for OpenGraphMetadata {
    type V = OpenGraphMetadataView;

    open spec fn view(&self) -> OpenGraphMetadataView {
        OpenGraphMetadataView {
            og_type: self.og_type.deep_view(),
            og_title: self.og_title.deep_view(),
            og_description: self.og_description.deep_view(),
            og_url: self.og_url.deep_view(),
            og_image: self.og_image.deep_view(),
            og_site_name: self.og_site_name.deep_view(),
            og_locale: self.og_locale.deep_view(),
        }
    }
}

/// Twitter Card metadata.
#[derive(Debug)]
pub struct TwitterCardMetadata {
    pub twitter_card: Option<String>,
    pub twitter_title: Option<String>,
    pub twitter_description: Option<String>,
    pub twitter_url: Option<WebUrl>,
    pub twitter_image: Option<WebUrl>,
}

/// The mathematical value of a [`TwitterCardMetadata`].
pub struct TwitterCardMetadataView {
    pub twitter_card: Option<Seq<char>>,
    pub twitter_title: Option<Seq<char>>,
    pub twitter_description: Option<Seq<char>>,
    pub twitter_url: Option<WebUrlView>,
    pub twitter_image: Option<WebUrlView>,
}

impl View for TwitterCardMetadata {
    type V = TwitterCardMetadataView;

    open spec fn view(&self) -> TwitterCardMetadataView {
        TwitterCardMetadataView {
            twitter_card: self.twitter_card.deep_view(),
            twitter_title: self.twitter_title.deep_view(),
            twitter_description: self.twitter_description.deep_view(),
            twitter_url: self.twitter_url.deep_view(),
            twitter_image: self.twitter_image.deep_view(),
        }
    }
}

/// Viewport and mobile metadata.
#[derive(Debug)]
pub struct ViewportMetadata {
    /// Viewport settings for responsive design.
    pub viewport: Option<String>,
    /// The theme color for browser UI on mobile devices.
    pub theme_color: Option<String>,
    /// Whether the page can run as a web app on Apple devices.
    pub apple_mobile_web_app_capable: Option<bool>,
    /// The style of the status bar on Apple devices.
    pub apple_mobile_web_app_status_bar_style: Option<String>,
}

/// The mathematical value of a [`ViewportMetadata`].
pub struct ViewportMetadataView {
    pub viewport: Option<Seq<char>>,
    pub theme_color: Option<Seq<char>>,
    pub apple_mobile_web_app_capable: Option<bool>,
    pub apple_mobile_web_app_status_bar_style: Option<Seq<char>>,
}

impl View for ViewportMetadata {
    type V = ViewportMetadataView;

    open spec fn view(&self) -> ViewportMetadataView {
        ViewportMetadataView {
            viewport: self.viewport.deep_view(),
            theme_color: self.theme_color.deep_view(),
            apple_mobile_web_app_capable: self.apple_mobile_web_app_capable,
            apple_mobile_web_app_status_bar_style: self.apple_mobile_web_app_status_bar_style.deep_view(),
        }
    }
}

/// An alternate version of the page in another language.
#[derive(Debug)]
pub struct AlternateLanguage {
    /// The language code.
    pub lang: String,
    pub url: WebUrl,
}

/// The mathematical value of an [`AlternateLanguage`].
pub struct AlternateLanguageView {
    pub lang: Seq<char>,
    pub url: WebUrlView,
}

impl View for AlternateLanguage {
    type V = AlternateLanguageView;

    open spec fn view(&self) -> AlternateLanguageView {
        AlternateLanguageView { lang: self.lang@, url: self.url@ }
    }
}

impl DeepView for AlternateLanguage {
    type V = AlternateLanguageView;

    open spec fn deep_view(&self) -> AlternateLanguageView {
        self@
    }
}

/// Link relationships.
#[derive(Debug)]
pub struct LinkMetadata {
    pub canonical: Option<WebUrl>,
    /// The alternate language versions of the page, one for each language
    /// code, in the order in which the codes first occur.
    pub alternate_languages: Vec<AlternateLanguage>,
    pub prev: Option<WebUrl>,
    pub next: Option<WebUrl>,
    pub icon: Option<WebUrl>,
    pub apple_touch_icon: Option<WebUrl>,
}

/// The mathematical value of a [`LinkMetadata`].
pub struct LinkMetadataView {
    pub canonical: Option<WebUrlView>,
    pub alternate_languages: Seq<AlternateLanguageView>,
    pub prev: Option<WebUrlView>,
    pub next: Option<WebUrlView>,
    pub icon: Option<WebUrlView>,
    pub apple_touch_icon: Option<WebUrlView>,
}

impl View for LinkMetadata {
    type V = LinkMetadataView;

    open spec fn view(&self) -> LinkMetadataView {
        LinkMetadataView {
            canonical: self.canonical.deep_view(),
            alternate_languages: self.alternate_languages.deep_view(),
            prev: self.prev.deep_view(),
            next: self.next.deep_view(),
            icon: self.icon.deep_view(),
            apple_touch_icon: self.apple_touch_icon.deep_view(),
        }
    }
}

/// Complete page metadata.
#[derive(Debug)]
pub struct PageMetadata {
    pub basic: BasicMetadata,
    pub seo: SeoMetadata,
    pub open_graph: OpenGraphMetadata,
    pub twitter_card: TwitterCardMetadata,
    pub viewport: ViewportMetadata,
    pub links: LinkMetadata,
}

/// The mathematical value of a [`PageMetadata`].
pub struct PageMetadataView {
    pub basic: BasicMetadataView,
    pub seo: SeoMetadataView,
    pub open_graph: OpenGraphMetadataView,
    pub twitter_card: TwitterCardMetadataView,
    pub viewport: ViewportMetadataView,
    pub links: LinkMetadataView,
}

impl View for PageMetadata {
    type V = PageMetadataView;

    open spec fn view(&self) -> PageMetadataView {
        PageMetadataView {
            basic: self.basic@,
            seo: self.seo@,
            open_graph: self.open_graph@,
            twitter_card: self.twitter_card@,
            viewport: self.viewport@,
            links: self.links@,
        }
    }
}

/// The metadata of a page that says nothing.
pub open spec fn no_metadata() -> PageMetadataView {
    PageMetadataView {
        basic: BasicMetadataView {
            title: None,
            description: None,
            keywords: None,
            charset: None,
            language: None,
        },
        seo: SeoMetadataView {
            robots: None,
            canonical: None,
            author: None,
            publisher: None,
            creator: None,
        },
        open_graph: OpenGraphMetadataView {
            og_type: None,
            og_title: None,
            og_description: None,
            og_url: None,
            og_image: None,
            og_site_name: None,
            og_locale: None,
        },
        twitter_card: TwitterCardMetadataView {
            twitter_card: None,
            twitter_title: None,
            twitter_description: None,
            twitter_url: None,
            twitter_image: None,
        },
        viewport: ViewportMetadataView {
            viewport: None,
            theme_color: None,
            apple_mobile_web_app_capable: None,
            apple_mobile_web_app_status_bar_style: None,
        },
        links: LinkMetadataView {
            canonical: None,
            alternate_languages: Seq::empty(),
            prev: None,
            next: None,
            icon: None,
            apple_touch_icon: None,
        },
    }
}

impl Default for BasicMetadata {
    fn default() -> (r: Self)
        ensures
            r@ == no_metadata().basic,
    {
        BasicMetadata { title: None, description: None, keywords: None, charset: None, language: None }
    }
}

impl Default for SeoMetadata {
    fn default() -> (r: Self)
        ensures
            r@ == no_metadata().seo,
    {
        SeoMetadata { robots: None, canonical: None, author: None, publisher: None, creator: None }
    }
}

impl Default for OpenGraphMetadata {
    fn default() -> (r: Self)
        ensures
            r@ == no_metadata().open_graph,
    {
        OpenGraphMetadata {
            og_type: None,
            og_title: None,
            og_description: None,
            og_url: None,
            og_image: None,
            og_site_name: None,
            og_locale: None,
        }
    }
}

impl Default for TwitterCardMetadata {
    fn default() -> (r: Self)
        ensures
            r@ == no_metadata().twitter_card,
    {
        TwitterCardMetadata {
            twitter_card: None,
            twitter_title: None,
            twitter_description: None,
            twitter_url: None,
            twitter_image: None,
        }
    }
}

impl Default for ViewportMetadata {
    fn default() -> (r: Self)
        ensures
            r@ == no_metadata().viewport,
    {
        ViewportMetadata {
            viewport: None,
            theme_color: None,
            apple_mobile_web_app_capable: None,
            apple_mobile_web_app_status_bar_style: None,
        }
    }
}

impl Default for LinkMetadata {
    fn default() -> (r: Self)
        ensures
            r@ == no_metadata().links,
    {
        let alternate_languages: Vec<AlternateLanguage> = Vec::new();
        assert(alternate_languages.deep_view() =~= Seq::empty());
        LinkMetadata {
            canonical: None,
            alternate_languages,
            prev: None,
            next: None,
            icon: None,
            apple_touch_icon: None,
        }
    }
}

impl Default for PageMetadata {
    fn default() -> (r: Self)
        ensures
            r@ == no_metadata(),
    {
        PageMetadata {
            basic: BasicMetadata::default(),
            seo: SeoMetadata::default(),
            open_graph: OpenGraphMetadata::default(),
            twitter_card: TwitterCardMetadata::default(),
            viewport: ViewportMetadata::default(),
            links: LinkMetadata::default(),
        }
    }
}

/// `text`, trimmed, if there is one.
pub open spec fn trimmed_or_none(text: Option<Seq<char>>) -> Option<Seq<char>> {
    match text {
        Some(t) => Some(trimmed(t)),
        None => None,
    }
}

/// `text` as a URL, if there is one and it is an absolute URL.
pub open spec fn url_or_none(text: Option<Seq<char>>) -> Option<WebUrlView> {
    match text {
        Some(t) => url_parse(t),
        None => None,
    }
}

/// The selector for the `<meta>` element whose attribute `attr` is `value`.
pub open spec fn meta_selector(attr: Seq<char>, value: Seq<char>) -> Seq<char> {
    "meta["@ + attr + "=\""@ + value + "\"]"@
}

/// The selector for the `<link>` element whose `rel` is `rel`.
pub open spec fn link_selector(rel: Seq<char>) -> Seq<char> {
    "link[rel=\""@ + rel + "\"]"@
}

/// The title: the content of the first `<title>` element, trimmed.
pub open spec fn title_of(html: Seq<char>) -> Option<Seq<char>> {
    trimmed_or_none(html_first_inner_html(html, "title"@))
}

/// The trimmed `content` of the first `<meta>` element whose attribute
/// `attr` is `value`.
pub open spec fn meta_content(html: Seq<char>, attr: Seq<char>, value: Seq<char>) -> Option<
    Seq<char>,
> {
    trimmed_or_none(html_first_attr(html, meta_selector(attr, value), "content"@))
}

/// The trimmed `content` of the first `<meta>` element with the given
/// `property`.
pub open spec fn meta_property(html: Seq<char>, property: Seq<char>) -> Option<Seq<char>> {
    meta_content(html, "property"@, property)
}

/// The target of the first `<link>` element whose `rel` is `rel`.
pub open spec fn link_href(html: Seq<char>, rel: Seq<char>) -> Option<WebUrlView> {
    url_or_none(html_first_attr(html, link_selector(rel), "href"@))
}

/// The parts of `s` between its commas, each trimmed.
pub open spec fn split_commas(s: Seq<char>) -> Seq<Seq<char>>
    decreases s.len(),
{
    let comma = first_index_of(s, ',');
    if 0 <= comma < s.len() {
        seq![trimmed(s.take(comma))] + split_commas(s.skip(comma + 1))
    } else {
        seq![trimmed(s)]
    }
}

/// The keywords: the parts of the `keywords` meta tag between commas.
pub open spec fn keywords_of(html: Seq<char>) -> Option<Seq<Seq<char>>> {
    match meta_content(html, "name"@, "keywords"@) {
        Some(k) => Some(split_commas(k)),
        None => None,
    }
}

/// The place of the entry for `lang`, or the number of entries if there is
/// none.
pub open spec fn language_index(found: Seq<AlternateLanguageView>, lang: Seq<char>) -> int {
    first_index_of(Seq::new(found.len(), |i: int| found[i].lang), lang)
}

/// The alternate language versions that pairs of language code and target
/// give: a pair that lacks one of the two or whose target is no URL is
/// passed over, and a later target for a code replaces the earlier one.
pub open spec fn alternates_of(pairs: Seq<(Option<Seq<char>>, Option<Seq<char>>)>) -> Seq<
    AlternateLanguageView,
>
    decreases pairs.len(),
{
    if pairs.len() == 0 {
        Seq::empty()
    } else {
        let before = alternates_of(pairs.drop_last());
        match pairs.last() {
            (Some(lang), Some(href)) => match url_parse(href) {
                Some(url) => {
                    let at = language_index(before, lang);
                    let entry = AlternateLanguageView { lang, url };
                    if 0 <= at < before.len() {
                        before.update(at, entry)
                    } else {
                        before.push(entry)
                    }
                },
                None => before,
            },
            _ => before,
        }
    }
}

/// The metadata of the page whose text is `html`.
pub open spec fn page_metadata(html: Seq<char>) -> PageMetadataView {
    PageMetadataView {
        basic: BasicMetadataView {
            title: title_of(html),
            description: meta_content(html, "name"@, "description"@),
            keywords: keywords_of(html),
            charset: html_first_attr(html, "meta[charset]"@, "charset"@),
            language: meta_content(html, "name"@, "language"@),
        },
        seo: SeoMetadataView {
            robots: meta_content(html, "name"@, "robots"@),
            canonical: link_href(html, "canonical"@),
            author: meta_content(html, "name"@, "author"@),
            publisher: meta_content(html, "name"@, "publisher"@),
            creator: meta_content(html, "name"@, "creator"@),
        },
        open_graph: OpenGraphMetadataView {
            og_type: meta_property(html, "og:type"@),
            og_title: meta_property(html, "og:title"@),
            og_description: meta_property(html, "og:description"@),
            og_url: url_or_none(meta_property(html, "og:url"@)),
            og_image: url_or_none(meta_property(html, "og:image"@)),
            og_site_name: meta_property(html, "og:site_name"@),
            og_locale: meta_property(html, "og:locale"@),
        },
        twitter_card: TwitterCardMetadataView {
            twitter_card: meta_content(html, "name"@, "twitter:card"@),
            twitter_title: meta_content(html, "name"@, "twitter:title"@),
            twitter_description: meta_content(html, "name"@, "twitter:description"@),
            twitter_url: url_or_none(meta_content(html, "name"@, "twitter:url"@)),
            twitter_image: url_or_none(meta_content(html, "name"@, "twitter:image"@)),
        },
        viewport: ViewportMetadataView {
            viewport: meta_content(html, "name"@, "viewport"@),
            theme_color: meta_content(html, "name"@, "theme-color"@),
            apple_mobile_web_app_capable: match meta_content(
                html,
                "name"@,
                "apple-mobile-web-app-capable"@,
            ) {
                Some(v) => Some(lowercase(v) == "yes"@),
                None => None,
            },
            apple_mobile_web_app_status_bar_style: meta_content(
                html,
                "name"@,
                "apple-mobile-web-app-status-bar-style"@,
            ),
        },
        links: LinkMetadataView {
            canonical: link_href(html, "canonical"@),
            alternate_languages: alternates_of(
                html_attr_pairs(
                    html,
                    "link[rel=\"alternate\"][hreflang]"@,
                    "hreflang"@,
                    "href"@,
                ),
            ),
            prev: link_href(html, "prev"@),
            next: link_href(html, "next"@),
            icon: link_href(html, "icon"@),
            apple_touch_icon: link_href(html, "apple-touch-icon"@),
        },
    }
}

fn trim_text(text: Option<String>) -> (r: Option<String>)
    ensures
        r.deep_view() == trimmed_or_none(text.deep_view()),
{
    match text {
        Some(t) => Some(from_chars(&trim(&to_chars(t.as_str())))),
        None => None,
    }
}

fn parse_text(text: Option<String>) -> (r: Option<WebUrl>)
    ensures
        r.deep_view() == url_or_none(text.deep_view()),
{
    match text {
        Some(t) => WebUrl::parse(t.as_str()),
        None => None,
    }
}

/// Splits a text at its commas and trims the parts.
pub fn split_keywords(s: &Vec<char>) -> (r: Vec<String>)
    ensures
        r.deep_view() == split_commas(s@),
{
    let n = s.len();
    let mut out: Vec<String> = Vec::new();
    let mut pos: usize = 0;
    assert(s@.skip(0) == s@);
    assert(out.deep_view() + split_commas(s@) =~= split_commas(s@));
    loop
        invariant
            pos <= n == s.len(),
            out.deep_view() + split_commas(s@.skip(pos as int)) == split_commas(s@),
        decreases n - pos,
    {
        let ghost rest = s@.skip(pos as int);
        let ghost before = out.deep_view();
        let mut end: usize = pos;
        while end < n && s[end] != ','
            invariant
                pos <= end <= n == s.len(),
                forall|j: int| pos <= j < end ==> s@[j] != ',',
            decreases n - end,
        {
            end += 1;
        }
        proof {
            assert forall|j: int| 0 <= j < end - pos implies rest[j] != ',' by {
                assert(rest[j] == s@[pos + j]);
            }
            lemma_first_index_of(rest, ',', end - pos);
            assert(rest.take(end - pos) == s@.subrange(pos as int, end as int));
        }
        let piece = from_chars(&trim(&slice_of(s, pos, end)));
        let ghost piece_view = piece@;
        out.push(piece);
        assert(out.deep_view() =~= before.push(piece_view));
        if end < n {
            proof {
                assert(rest.skip(end - pos + 1) == s@.skip(end + 1));
                assert(before.push(piece_view) + split_commas(s@.skip(end + 1)) =~= before + (
                seq![piece_view] + split_commas(s@.skip(end + 1))));
            }
            pos = end + 1;
        } else {
            proof {
                assert(rest.take(rest.len() as int) == rest);
                assert(before.push(piece_view) =~= before + seq![piece_view]);
            }
            return out;
        }
    }
}

fn find_language(found: &Vec<AlternateLanguage>, lang: &String) -> (r: usize)
    ensures
        r == language_index(found.deep_view(), lang@),
        r <= found.len(),
{
    let ghost keys = Seq::new(found.deep_view().len(), |i: int| found.deep_view()[i].lang);
    let mut i: usize = 0;
    while i < found.len()
        invariant
            i <= found.len(),
            keys == Seq::new(found.deep_view().len(), |i: int| found.deep_view()[i].lang),
            forall|j: int| 0 <= j < i ==> keys[j] != lang@,
        decreases found.len() - i,
    {
        assert(keys[i as int] == found[i as int].lang@);
        if found[i].lang == *lang {
            proof {
                lemma_first_index_of(keys, lang@, i as int);
            }
            return i;
        }
        i += 1;
    }
    proof {
        lemma_first_index_of(keys, lang@, i as int);
    }
    i
}

/// Builds the alternate language versions from pairs of language code and
/// target.
pub fn alternate_languages(pairs: Vec<(Option<String>, Option<String>)>) -> (r: Vec<
    AlternateLanguage,
>)
    ensures
        r.deep_view() == alternates_of(pairs.deep_view()),
{
    let ghost all = pairs.deep_view();
    let mut found: Vec<AlternateLanguage> = Vec::new();
    let mut i: usize = 0;
    assert(all.take(0) =~= Seq::empty());
    assert(found.deep_view() =~= Seq::empty());
    while i < pairs.len()
        invariant
            i <= pairs.len(),
            all == pairs.deep_view(),
            found.deep_view() == alternates_of(all.take(i as int)),
        decreases pairs.len() - i,
    {
        let ghost before = found.deep_view();
        proof {
            assert(all.take(i + 1).drop_last() == all.take(i as int));
            assert(all.take(i + 1).last() == pairs[i as int].deep_view());
        }
        match (&pairs[i].0, &pairs[i].1) {
            (Some(lang), Some(href)) => match WebUrl::parse(href.as_str()) {
                Some(url) => {
                    let at = find_language(&found, lang);
                    let entry = AlternateLanguage { lang: lang.clone(), url };
                    if at < found.len() {
                        found.set(at, entry);
                        assert(found.deep_view() =~= before.update(at as int, entry@));
                    } else {
                        found.push(entry);
                        assert(found.deep_view() =~= before.push(entry@));
                    }
                },
                None => {},
            },
            _ => {},
        }
        i += 1;
    }
    assert(all.take(pairs.len() as int) == all);
    found
}

impl PageMetadata {
    /// Reads the metadata of the page whose text is `html`.
    pub fn extract(html: &str) -> (r: PageMetadata)
        ensures
            r@ == page_metadata(html@),
    {
        PageMetadata {
            basic: BasicMetadata {
                title: Self::extract_title(html),
                description: Self::extract_meta_content(html, "name", "description"),
                keywords: Self::extract_keywords(html),
                charset: Self::extract_charset(html),
                language: Self::extract_meta_content(html, "name", "language"),
            },
            seo: SeoMetadata {
                robots: Self::extract_meta_content(html, "name", "robots"),
                canonical: Self::extract_canonical_from_link(html),
                author: Self::extract_meta_content(html, "name", "author"),
                publisher: Self::extract_meta_content(html, "name", "publisher"),
                creator: Self::extract_meta_content(html, "name", "creator"),
            },
            open_graph: OpenGraphMetadata {
                og_type: Self::extract_meta_property(html, "og:type"),
                og_title: Self::extract_meta_property(html, "og:title"),
                og_description: Self::extract_meta_property(html, "og:description"),
                og_url: Self::extract_url_from_property(html, "og:url"),
                og_image: Self::extract_url_from_property(html, "og:image"),
                og_site_name: Self::extract_meta_property(html, "og:site_name"),
                og_locale: Self::extract_meta_property(html, "og:locale"),
            },
            twitter_card: TwitterCardMetadata {
                twitter_card: Self::extract_meta_content(html, "name", "twitter:card"),
                twitter_title: Self::extract_meta_content(html, "name", "twitter:title"),
                twitter_description: Self::extract_meta_content(
                    html,
                    "name",
                    "twitter:description",
                ),
                twitter_url: Self::extract_url_from_meta(html, "name", "twitter:url"),
                twitter_image: Self::extract_url_from_meta(html, "name", "twitter:image"),
            },
            viewport: ViewportMetadata {
                viewport: Self::extract_meta_content(html, "name", "viewport"),
                theme_color: Self::extract_meta_content(html, "name", "theme-color"),
                apple_mobile_web_app_capable: match Self::extract_meta_content(
                    html,
                    "name",
                    "apple-mobile-web-app-capable",
                ) {
                    Some(v) => Some(same_chars(&to_lower(v.as_str()), &to_chars("yes"))),
                    None => None,
                },
                apple_mobile_web_app_status_bar_style: Self::extract_meta_content(
                    html,
                    "name",
                    "apple-mobile-web-app-status-bar-style",
                ),
            },
            links: LinkMetadata {
                canonical: Self::extract_canonical_from_link(html),
                alternate_languages: Self::extract_alternate_languages(html),
                prev: Self::extract_link_href(html, "prev"),
                next: Self::extract_link_href(html, "next"),
                icon: Self::extract_link_href(html, "icon"),
                apple_touch_icon: Self::extract_link_href(html, "apple-touch-icon"),
            },
        }
    }

    /// The page title from the `<title>` tag.
    pub fn extract_title(html: &str) -> (r: Option<String>)
        ensures
            r.deep_view() == title_of(html@),
    {
        trim_text(select_first_inner_html(html, "title"))
    }

    /// The content of the meta tag whose attribute `attr` is `value`.
    pub fn extract_meta_content(html: &str, attr: &str, value: &str) -> (r: Option<String>)
        ensures
            r.deep_view() == meta_content(html@, attr@, value@),
    {
        let mut selector = String::from_str("meta[");
        selector.append(attr);
        selector.append("=\"");
        selector.append(value);
        selector.append("\"]");
        assert(selector@ =~= meta_selector(attr@, value@));
        trim_text(select_first_attr(html, selector.as_str(), "content"))
    }

    /// The content of the meta tag with the given `property`.
    pub fn extract_meta_property(html: &str, property: &str) -> (r: Option<String>)
        ensures
            r.deep_view() == meta_property(html@, property@),
    {
        Self::extract_meta_content(html, "property", property)
    }

    /// The keywords of the `keywords` meta tag.
    pub fn extract_keywords(html: &str) -> (r: Option<Vec<String>>)
        ensures
            r.deep_view() == keywords_of(html@),
    {
        match Self::extract_meta_content(html, "name", "keywords") {
            Some(k) => Some(split_keywords(&to_chars(k.as_str()))),
            None => None,
        }
    }

    /// The character encoding from the `charset` meta tag.
    pub fn extract_charset(html: &str) -> (r: Option<String>)
        ensures
            r.deep_view() == html_first_attr(html@, "meta[charset]"@, "charset"@),
    {
        select_first_attr(html, "meta[charset]", "charset")
    }

    /// The canonical URL from the `<link>` tag.
    pub fn extract_canonical_from_link(html: &str) -> (r: Option<WebUrl>)
        ensures
            r.deep_view() == link_href(html@, "canonical"@),
    {
        Self::extract_link_href(html, "canonical")
    }

    /// The URL in the meta tag with the given `property`.
    pub fn extract_url_from_property(html: &str, property: &str) -> (r: Option<WebUrl>)
        ensures
            r.deep_view() == url_or_none(meta_property(html@, property@)),
    {
        parse_text(Self::extract_meta_property(html, property))
    }

    /// The URL in the meta tag whose attribute `attr` is `value`.
    pub fn extract_url_from_meta(html: &str, attr: &str, value: &str) -> (r: Option<WebUrl>)
        ensures
            r.deep_view() == url_or_none(meta_content(html@, attr@, value@)),
    {
        parse_text(Self::extract_meta_content(html, attr, value))
    }

    /// The alternate language versions from `hreflang` link tags.
    pub fn extract_alternate_languages(html: &str) -> (r: Vec<AlternateLanguage>)
        ensures
            r.deep_view() == alternates_of(
                html_attr_pairs(
                    html@,
                    "link[rel=\"alternate\"][hreflang]"@,
                    "hreflang"@,
                    "href"@,
                ),
            ),
    {
        alternate_languages(
            select_attr_pairs(html, "link[rel=\"alternate\"][hreflang]", "hreflang", "href"),
        )
    }

    /// The target of the `<link>` tag whose `rel` is `rel`.
    pub fn extract_link_href(html: &str, rel: &str) -> (r: Option<WebUrl>)
        ensures
            r.deep_view() == link_href(html@, rel@),
    {
        let mut selector = String::from_str("link[rel=\"");
        selector.append(rel);
        selector.append("\"]");
        assert(selector@ =~= link_selector(rel@));
        parse_text(select_first_attr(html, selector.as_str(), "href"))
    }
}

} // verus!
