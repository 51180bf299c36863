//! Absolute URLs as the crawler sees them: the normalized text of a URL
//! together with the components that policy decisions read.

use vstd::prelude::*;

verus! {

/// An absolute URL in normalized form, with its components.
#[derive(Debug)]
pub struct WebUrl {
    /// The whole URL, serialized.
    pub href: String,
    /// The scheme, without the colon.
    pub scheme: String,
    /// The host as written in `href`, if the URL has one.
    pub host: Option<String>,
    /// The host, if it is a domain name rather than an IP address.
    pub domain: Option<String>,
    /// The port, if one is given and is not the default of the scheme.
    pub port: Option<u16>,
    /// The path, percent-encoded as in `href`.
    pub path: String,
}

/// The mathematical value of a [`WebUrl`].
pub struct WebUrlView {
    pub href: Seq<char>,
    pub scheme: Seq<char>,
    pub host: Option<Seq<char>>,
    pub domain: Option<Seq<char>>,
    pub port: Option<u16>,
    pub path: Seq<char>,
}

impl View for WebUrl {
    type V = WebUrlView;

    open spec fn view(&self) -> WebUrlView {
        WebUrlView {
            href: self.href@,
            scheme: self.scheme@,
            host: self.host.deep_view(),
            domain: self.domain.deep_view(),
            port: self.port,
            path: self.path@,
        }
    }
}

impl DeepView for WebUrl {
    type V = WebUrlView;

    open spec fn deep_view(&self) -> WebUrlView {
        self@
    }
}

/// What `url::Url::parse` makes of a text: nothing if the text is not an
/// absolute URL, else the serialization (`as_str`) and the components
/// (`scheme`, `host_str`, `domain`, `port`, `path`) of the parsed URL.
pub uninterp spec fn url_parse(input: Seq<char>) -> Option<WebUrlView>;

/// What `url::Url::join` makes of a reference with the URL written as `base`
/// as its base: nothing if `base` is not an absolute URL or the reference
/// cannot be resolved against it, else the serialization of the resolved URL.
pub uninterp spec fn url_join(base: Seq<char>, reference: Seq<char>) -> Option<Seq<char>>;

/// Calls `url::Url::parse` and copies out the serialization and the
/// components of the result.
#[verifier::external_body]
fn parse_absolute(input: &str) -> (r: Option<WebUrl>)
    ensures
        r.deep_view() == url_parse(input@),
{
    match url::Url::parse(input) {
        Ok(u) => Some(
            WebUrl {
                href: u.as_str().to_string(),
                scheme: u.scheme().to_string(),
                host: u.host_str().map(str::to_string),
                domain: u.domain().map(str::to_string),
                port: u.port(),
                path: u.path().to_string(),
            },
        ),
        Err(_) => None,
    }
}

/// Parses `base` with `url::Url::parse`, calls `url::Url::join` on it with
/// `reference`, and returns the serialization of the result.
#[verifier::external_body]
fn join_reference(base: &str, reference: &str) -> (r: Option<String>)
    ensures
        r.deep_view() == url_join(base@, reference@),
{
    match url::Url::parse(base) {
        Ok(b) => match b.join(reference) {
            Ok(u) => Some(String::from(u)),
            Err(_) => None,
        },
        Err(_) => None,
    }
}

/// The URL that a reference found in a document at `base` stands for: the
/// reference itself if it is an absolute URL, else its resolution against
/// `base`.
pub open spec fn url_resolve(base: Seq<char>, reference: Seq<char>) -> Option<WebUrlView> {
    match url_parse(reference) {
        Some(u) => Some(u),
        None => match url_join(base, reference) {
            Some(href) => url_parse(href),
            None => None,
        },
    }
}

/// Copies an optional string.
pub fn clone_text(o: &Option<String>) -> (r: Option<String>)
    ensures
        r == *o,
{
    match o {
        Some(s) => Some(s.clone()),
        None => None,
    }
}

impl Clone for WebUrl {
    fn clone(&self) -> (r: Self)
        ensures
            r == *self,
    {
        WebUrl {
            href: self.href.clone(),
            scheme: self.scheme.clone(),
            host: clone_text(&self.host),
            domain: clone_text(&self.domain),
            port: self.port,
            path: self.path.clone(),
        }
    }
}

/// Resolves `reference` against `base` and gives the resolved URL as text.
pub fn join_href(base: &WebUrl, reference: &str) -> (r: Option<String>)
    ensures
        r.deep_view() == url_join(base.href@, reference@),
{
    join_reference(base.href.as_str(), reference)
}

impl WebUrl {
    /// Parses an absolute URL.
    pub fn parse(input: &str) -> (r: Option<WebUrl>)
        ensures
            r.deep_view() == url_parse(input@),
    {
        parse_absolute(input)
    }

    /// Resolves `reference` against this URL as its base.
    pub fn join(&self, reference: &str) -> (r: Option<WebUrl>)
        ensures
            r.deep_view() == match url_join(self.href@, reference@) {
                Some(href) => url_parse(href),
                None => None,
            },
    {
        match join_reference(self.href.as_str(), reference) {
            Some(href) => parse_absolute(href.as_str()),
            None => None,
        }
    }

    /// Takes `reference` as an absolute URL, or else as relative to this one.
    pub fn resolve(&self, reference: &str) -> (r: Option<WebUrl>)
        ensures
            r.deep_view() == url_resolve(self.href@, reference@),
    {
        match parse_absolute(reference) {
            Some(u) => Some(u),
            None => self.join(reference),
        }
    }
}

} // verus!
