//! What the crawler reads out of an HTML document. The document itself is
//! parsed by the `scraper` crate; this module hands out plain values.

use vstd::prelude::*;

verus! {

/// An `<a>` element that has an `href` attribute, as found in a document.
#[derive(Debug)]
pub struct Anchor {
    /// The `href` attribute as written.
    pub href: String,
    /// The text inside the element, all text nodes joined.
    pub text: String,
    pub title: Option<String>,
    pub rel: Option<String>,
    pub target: Option<String>,
}

/// The mathematical value of an [`Anchor`].
pub struct AnchorView {
    pub href: Seq<char>,
    pub text: Seq<char>,
    pub title: Option<Seq<char>>,
    pub rel: Option<Seq<char>>,
    pub target: Option<Seq<char>>,
}

impl View for Anchor {
    type V = AnchorView;

    open spec fn view(&self) -> AnchorView {
        AnchorView {
            href: self.href@,
            text: self.text@,
            title: self.title.deep_view(),
            rel: self.rel.deep_view(),
            target: self.target.deep_view(),
        }
    }
}

impl DeepView for Anchor {
    type V = AnchorView;

    open spec fn deep_view(&self) -> AnchorView {
        self@
    }
}

/// An element found in a document: the values of the attributes that were
/// asked for, in the order in which they were asked for, and the text
/// inside the element, all text nodes joined.
#[derive(Debug)]
pub struct Element {
    pub attrs: Vec<Option<String>>,
    pub text: String,
}

/// The mathematical value of an [`Element`].
pub struct ElementView {
    pub attrs: Seq<Option<Seq<char>>>,
    pub text: Seq<char>,
}

impl View for Element {
    type V = ElementView;

    open spec fn view(&self) -> ElementView {
        ElementView { attrs: self.attrs.deep_view(), text: self.text@ }
    }
}

impl DeepView for Element {
    type V = ElementView;

    open spec fn deep_view(&self) -> ElementView {
        self@
    }
}

/// The elements that `selector` finds in the document that
/// `scraper::Html::parse_document` makes of `html`, in the order in which
/// `scraper::Html::select` yields them, each with what
/// `scraper::ElementRef::attr` gives for each of `names` and with the
/// items of `scraper::ElementRef::text` joined; none if `selector` is no
/// CSS selector.
pub uninterp spec fn html_elements(
    html: Seq<char>,
    selector: Seq<char>,
    names: Seq<Seq<char>>,
) -> Seq<ElementView>;

/// The first text node below the first element that `selector` finds in
/// the document that `scraper::Html::parse_document` makes of `html`;
/// nothing if `selector` is no CSS selector, finds no element, or the
/// element holds no text.
pub uninterp spec fn html_first_text(html: Seq<char>, selector: Seq<char>) -> Option<Seq<char>>;

/// The attribute `name` of the first element that `selector` finds in the
/// document that `scraper::Html::parse_document` makes of `html`; nothing
/// if `selector` is no CSS selector, finds no element, or the element lacks
/// the attribute.
pub uninterp spec fn html_first_attr(
    html: Seq<char>,
    selector: Seq<char>,
    name: Seq<char>,
) -> Option<Seq<char>>;

/// Parses `html` with `scraper::Html::parse_document` and `selector` with
/// `scraper::Selector::parse`, and copies out of each element that
/// `scraper::Html::select` yields what `scraper::ElementRef::attr` gives
/// for each of `names` and what `scraper::ElementRef::text` gives.
#[verifier::external_body]
fn select_elements(html: &str, selector: &str, names: &Vec<String>) -> (r: Vec<Element>)
    ensures
        r.deep_view() == html_elements(html@, selector@, names.deep_view()),
{
    match scraper::Selector::parse(selector) {
        Ok(s) => scraper::Html::parse_document(html).select(&s).map(
            |e| Element {
                attrs: names.iter().map(|n| e.attr(n).map(str::to_string)).collect(),
                text: e.text().collect(),
            },
        ).collect(),
        Err(_) => Vec::new(),
    }
}

/// Parses `html` with `scraper::Html::parse_document` and `selector` with
/// `scraper::Selector::parse`, and returns the first item of
/// `scraper::ElementRef::text` on the first element that
/// `scraper::Html::select` yields.
#[verifier::external_body]
pub(crate) fn select_first_text(html: &str, selector: &str) -> (r: Option<String>)
    ensures
        r.deep_view() == html_first_text(html@, selector@),
{
    match scraper::Selector::parse(selector) {
        Ok(s) => scraper::Html::parse_document(html).select(&s).next().and_then(
            |e| e.text().next(),
        ).map(str::to_string),
        Err(_) => None,
    }
}

/// Parses `html` with `scraper::Html::parse_document` and `selector` with
/// `scraper::Selector::parse`, and returns what
/// `scraper::node::Element::attr` gives for `name` on the first element
/// that `scraper::Html::select` yields.
#[verifier::external_body]
pub(crate) fn select_first_attr(html: &str, selector: &str, name: &str) -> (r: Option<String>)
    ensures
        r.deep_view() == html_first_attr(html@, selector@, name@),
{
    match scraper::Selector::parse(selector) {
        Ok(s) => scraper::Html::parse_document(html).select(&s).next().and_then(
            |e| e.attr(name),
        ).map(str::to_string),
        Err(_) => None,
    }
}

/// The serialized content (`scraper::ElementRef::inner_html`) of the first
/// element that `selector` finds in the document that
/// `scraper::Html::parse_document` makes of `html`; nothing if `selector`
/// is no CSS selector or finds no element.
pub uninterp spec fn html_first_inner_html(html: Seq<char>, selector: Seq<char>) -> Option<
    Seq<char>,
>;

/// Parses `html` with `scraper::Html::parse_document` and `selector` with
/// `scraper::Selector::parse`, and returns what
/// `scraper::ElementRef::inner_html` gives for the first element that
/// `scraper::Html::select` yields.
#[verifier::external_body]
pub(crate) fn select_first_inner_html(html: &str, selector: &str) -> (r: Option<String>)
    ensures
        r.deep_view() == html_first_inner_html(html@, selector@),
{
    match scraper::Selector::parse(selector) {
        Ok(s) => scraper::Html::parse_document(html).select(&s).next().map(|e| e.inner_html()),
        Err(_) => None,
    }
}

/// The value of the attribute that was asked for in place `i`.
pub open spec fn attr_at(e: ElementView, i: int) -> Option<Seq<char>> {
    if 0 <= i < e.attrs.len() {
        e.attrs[i]
    } else {
        None
    }
}

/// The attributes that are read of an anchor.
pub open spec fn anchor_attributes() -> Seq<Seq<char>> {
    seq!["href"@, "title"@, "rel"@, "target"@]
}

/// The anchor that an element gives of which the attributes
/// `anchor_attributes()` were asked.
pub open spec fn anchor_of(e: ElementView) -> AnchorView {
    AnchorView {
        href: match attr_at(e, 0) {
            Some(href) => href,
            None => Seq::empty(),
        },
        text: e.text,
        title: attr_at(e, 1),
        rel: attr_at(e, 2),
        target: attr_at(e, 3),
    }
}

/// The anchors of a document that carry a reference: the elements that the
/// selector `a[href]` finds, in document order.
pub open spec fn html_anchors(html: Seq<char>) -> Seq<AnchorView> {
    let found = html_elements(html, "a[href]"@, anchor_attributes());
    Seq::new(found.len(), |i: int| anchor_of(found[i]))
}

/// The attributes `first` and `second` of every element that `selector`
/// finds in a document, in document order.
pub open spec fn html_attr_pairs(
    html: Seq<char>,
    selector: Seq<char>,
    first: Seq<char>,
    second: Seq<char>,
) -> Seq<(Option<Seq<char>>, Option<Seq<char>>)> {
    let found = html_elements(html, selector, seq![first, second]);
    Seq::new(found.len(), |i: int| (attr_at(found[i], 0), attr_at(found[i], 1)))
}

fn attribute(e: &Element, i: usize) -> (r: Option<String>)
    ensures
        r.deep_view() == attr_at(e@, i as int),
{
    if i < e.attrs.len() {
        assert(e@.attrs[i as int] == e.attrs[i as int].deep_view());
        crate::web_url::clone_text(&e.attrs[i])
    } else {
        None
    }
}

/// Makes anchors of elements of which the attributes `href`, `title`,
/// `rel` and `target` were asked, in this order.
pub fn anchors_of(found: &Vec<Element>) -> (r: Vec<Anchor>)
    ensures
        r.deep_view() == Seq::new(found.deep_view().len(), |i: int| anchor_of(found.deep_view()[i])),
{
    let ghost views = found.deep_view();
    let mut r: Vec<Anchor> = Vec::new();
    let mut i: usize = 0;
    while i < found.len()
        invariant
            i <= found.len(),
            views == found.deep_view(),
            r.len() == i,
            forall|j: int| 0 <= j < i ==> (#[trigger] r[j])@ == anchor_of(views[j]),
        decreases found.len() - i,
    {
        let e = &found[i];
        assert(views[i as int] == e@);
        let href = match attribute(e, 0) {
            Some(href) => href,
            None => String::new(),
        };
        r.push(
            Anchor {
                href,
                text: e.text.clone(),
                title: attribute(e, 1),
                rel: attribute(e, 2),
                target: attribute(e, 3),
            },
        );
        i += 1;
    }
    assert(r.deep_view() =~= Seq::new(views.len(), |i: int| anchor_of(views[i])));
    r
}

/// The anchors of a document that carry a reference, in document order.
pub(crate) fn select_anchors(html: &str) -> (r: Vec<Anchor>)
    ensures
        r.deep_view() == html_anchors(html@),
{
    let mut names: Vec<String> = Vec::new();
    names.push(String::from_str("href"));
    names.push(String::from_str("title"));
    names.push(String::from_str("rel"));
    names.push(String::from_str("target"));
    assert(names.deep_view() =~= anchor_attributes());
    let found = select_elements(html, "a[href]", &names);
    anchors_of(&found)
}

/// The attributes `first` and `second` of every element that `selector`
/// finds in a document, in document order.
pub(crate) fn select_attr_pairs(html: &str, selector: &str, first: &str, second: &str) -> (r: Vec<
    (Option<String>, Option<String>),
>)
    ensures
        r.deep_view() == html_attr_pairs(html@, selector@, first@, second@),
{
    let mut names: Vec<String> = Vec::new();
    names.push(String::from_str(first));
    names.push(String::from_str(second));
    assert(names.deep_view() =~= seq![first@, second@]);
    let found = select_elements(html, selector, &names);
    let ghost views = found.deep_view();
    let mut r: Vec<(Option<String>, Option<String>)> = Vec::new();
    let mut i: usize = 0;
    while i < found.len()
        invariant
            i <= found.len(),
            views == found.deep_view(),
            r.len() == i,
            forall|j: int|
                0 <= j < i ==> (#[trigger] r[j]).deep_view() == (
                    attr_at(views[j], 0),
                    attr_at(views[j], 1),
                ),
        decreases found.len() - i,
    {
        let e = &found[i];
        assert(views[i as int] == e@);
        r.push((attribute(e, 0), attribute(e, 1)));
        i += 1;
    }
    assert(r.deep_view() =~= Seq::new(
        views.len(),
        |i: int| (attr_at(views[i], 0), attr_at(views[i], 1)),
    ));
    r
}

/// The title of a document: the first text in its first `<title>` element.
pub open spec fn html_title(html: Seq<char>) -> Option<Seq<char>> {
    html_first_text(html, "title"@)
}

/// The description of a document: the `content` of its first
/// `<meta name="description">` element.
pub open spec fn html_description(html: Seq<char>) -> Option<Seq<char>> {
    html_first_attr(html, "meta[name='description']"@, "content"@)
}

/// The title of a document.
pub fn title(html: &str) -> (r: Option<String>)
    ensures
        r.deep_view() == html_title(html@),
{
    select_first_text(html, "title")
}

/// The description of a document.
pub fn description(html: &str) -> (r: Option<String>)
    ensures
        r.deep_view() == html_description(html@),
{
    select_first_attr(html, "meta[name='description']", "content")
}

} // verus!
