//! The links of a page, sorted into classes by what they point to.

use vstd::prelude::*;
use crate::html::{html_anchors, select_anchors, Anchor, AnchorView};
use crate::text::{from_chars, slice_of, starts_with, to_chars, trim, trimmed};
use crate::web_url::{clone_text, url_join, url_resolve, WebUrl, WebUrlView};

verus! {

/// How many characters of a link's text are kept.
pub const MAX_LINK_TEXT: usize = 100;

/// What a link points to, seen from the page that holds it.
#[derive(Debug, Clone, Copy, PartialEq, Eq, Structural)]
pub enum LinkClass {
    /// A page of the same domain.
    Internal,
    /// A page of another domain.
    External,
    /// A `mailto:` address.
    Mailto,
    /// A `tel:` number.
    Phone,
    /// A fragment of the page itself.
    Anchor,
    /// A `javascript:` snippet.
    Javascript,
}

/// A link found on a page.
#[derive(Debug, PartialEq, Eq, Hash)]
pub struct LinkInfo {
    /// The target: resolved for web links and fragments, as written for the
    /// other classes.
    pub url: String,
    /// The text of the link, trimmed and cut after `MAX_LINK_TEXT`
    /// characters.
    pub text: String,
    pub title: Option<String>,
    pub rel: Option<String>,
    pub target: Option<String>,
}

/// The mathematical value of a [`LinkInfo`].
pub struct LinkInfoView {
    pub url: Seq<char>,
    pub text: Seq<char>,
    pub title: Option<Seq<char>>,
    pub rel: Option<Seq<char>>,
    pub target: Option<Seq<char>>,
}

impl View for LinkInfo {
    type V = LinkInfoView;

    open spec fn view(&self) -> LinkInfoView {
        LinkInfoView {
            url: self.url@,
            text: self.text@,
            title: self.title.deep_view(),
            rel: self.rel.deep_view(),
            target: self.target.deep_view(),
        }
    }
}

impl DeepView for LinkInfo {
    type V = LinkInfoView;

    open spec fn deep_view(&self) -> LinkInfoView {
        self@
    }
}

impl Clone for LinkInfo {
    fn clone(&self) -> (r: Self)
        ensures
            r == *self,
    {
        LinkInfo {
            url: self.url.clone(),
            text: self.text.clone(),
            title: clone_text(&self.title),
            rel: clone_text(&self.rel),
            target: clone_text(&self.target),
        }
    }
}

/// The links of a page by class.
#[derive(Debug)]
pub struct ExtractLinks {
    /// Same domain as the page.
    pub internal: Vec<LinkInfo>,
    /// Another domain.
    pub external: Vec<LinkInfo>,
    /// Email links.
    pub mailto: Vec<LinkInfo>,
    /// Phone number links.
    pub phone: Vec<LinkInfo>,
    /// Fragment links (`#section`).
    pub anchor: Vec<LinkInfo>,
    /// `javascript:` links.
    pub javascript: Vec<LinkInfo>,
}

/// The mathematical value of an [`ExtractLinks`].
pub struct ExtractLinksView {
    pub internal: Seq<LinkInfoView>,
    pub external: Seq<LinkInfoView>,
    pub mailto: Seq<LinkInfoView>,
    pub phone: Seq<LinkInfoView>,
    pub anchor: Seq<LinkInfoView>,
    pub javascript: Seq<LinkInfoView>,
}

impl ExtractLinksView {
    /// The links of one class.
    pub open spec fn of_class(self, class: LinkClass) -> Seq<LinkInfoView> {
        match class {
            LinkClass::Internal => self.internal,
            LinkClass::External => self.external,
            LinkClass::Mailto => self.mailto,
            LinkClass::Phone => self.phone,
            LinkClass::Anchor => self.anchor,
            LinkClass::Javascript => self.javascript,
        }
    }
}

impl ExtractLinksView {
    /// These links and one more of the given class.
    pub open spec fn with(self, class: LinkClass, link: LinkInfoView) -> ExtractLinksView {
        match class {
            LinkClass::Internal => ExtractLinksView { internal: self.internal.push(link), ..self },
            LinkClass::External => ExtractLinksView { external: self.external.push(link), ..self },
            LinkClass::Mailto => ExtractLinksView { mailto: self.mailto.push(link), ..self },
            LinkClass::Phone => ExtractLinksView { phone: self.phone.push(link), ..self },
            LinkClass::Anchor => ExtractLinksView { anchor: self.anchor.push(link), ..self },
            LinkClass::Javascript => ExtractLinksView {
                javascript: self.javascript.push(link),
                ..self
            },
        }
    }
}

impl View for ExtractLinks {
    type V = ExtractLinksView;

    open spec fn view(&self) -> ExtractLinksView {
        ExtractLinksView {
            internal: self.internal.deep_view(),
            external: self.external.deep_view(),
            mailto: self.mailto.deep_view(),
            phone: self.phone.deep_view(),
            anchor: self.anchor.deep_view(),
            javascript: self.javascript.deep_view(),
        }
    }
}

/// Copies a list of links.
pub fn clone_links(links: &Vec<LinkInfo>) -> (r: Vec<LinkInfo>)
    ensures
        r@ == links@,
{
    let mut r: Vec<LinkInfo> = Vec::new();
    let mut i: usize = 0;
    while i < links.len()
        invariant
            i <= links.len(),
            r@ == links@.take(i as int),
        decreases links.len() - i,
    {
        r.push(links[i].clone());
        i += 1;
    }
    assert(links@.take(links.len() as int) == links@);
    r
}

impl Clone for ExtractLinks {
    fn clone(&self) -> (r: Self)
        ensures
            r@ == self@,
    {
        ExtractLinks {
            internal: clone_links(&self.internal),
            external: clone_links(&self.external),
            mailto: clone_links(&self.mailto),
            phone: clone_links(&self.phone),
            anchor: clone_links(&self.anchor),
            javascript: clone_links(&self.javascript),
        }
    }
}

/// The text of a link as it is kept: trimmed, and cut after
/// `MAX_LINK_TEXT` characters.
pub open spec fn link_text(raw: Seq<char>) -> Seq<char> {
    let t = trimmed(raw);
    if t.len() > MAX_LINK_TEXT {
        t.take(MAX_LINK_TEXT as int)
    } else {
        t
    }
}

/// The class of a web link: internal if it leads to the domain of the page,
/// external if it leads to another domain, internal again if it has no
/// domain but is written as a path, and none otherwise. An absent domain is
/// given as the empty text.
pub open spec fn web_link_class(
    source_domain: Seq<char>,
    link_domain: Seq<char>,
    href: Seq<char>,
) -> Option<LinkClass> {
    if link_domain == source_domain && source_domain.len() > 0 {
        Some(LinkClass::Internal)
    } else if link_domain.len() > 0 {
        Some(LinkClass::External)
    } else if "/"@.is_prefix_of(href) || "./"@.is_prefix_of(href) || "../"@.is_prefix_of(href) {
        Some(LinkClass::Internal)
    } else {
        None
    }
}

/// The domain of a URL, or the empty text if it has none.
pub open spec fn domain_or_empty(u: WebUrlView) -> Seq<char> {
    match u.domain {
        Some(d) => d,
        None => Seq::empty(),
    }
}

/// The class and target of a link with the nonempty reference `href` on the
/// page at `base`; nothing for a link that is dropped.
pub open spec fn classify(base: WebUrlView, href: Seq<char>) -> Option<(LinkClass, Seq<char>)> {
    if "javascript:"@.is_prefix_of(href) {
        Some((LinkClass::Javascript, href))
    } else if "mailto:"@.is_prefix_of(href) {
        Some((LinkClass::Mailto, href))
    } else if "tel:"@.is_prefix_of(href) {
        Some((LinkClass::Phone, href))
    } else if "#"@.is_prefix_of(href) {
        match url_join(base.href, href) {
            Some(target) => Some((LinkClass::Anchor, target)),
            None => None,
        }
    } else {
        match url_resolve(base.href, href) {
            Some(target) => match web_link_class(
                domain_or_empty(base),
                domain_or_empty(target),
                href,
            ) {
                Some(class) => Some((class, target.href)),
                None => None,
            },
            None => None,
        }
    }
}

/// The link that an anchor of the page at `base` gives, with its class;
/// nothing for an anchor with an empty reference or a dropped link.
pub open spec fn link_of(base: WebUrlView, a: AnchorView) -> Option<(LinkClass, LinkInfoView)> {
    if a.href.len() == 0 {
        None
    } else {
        match classify(base, a.href) {
            Some((class, url)) => Some(
                (
                    class,
                    LinkInfoView {
                        url,
                        text: link_text(a.text),
                        title: a.title,
                        rel: a.rel,
                        target: a.target,
                    },
                ),
            ),
            None => None,
        }
    }
}

/// The links of one class that the anchors give, in the order of the
/// anchors.
pub open spec fn links_of_class(
    base: WebUrlView,
    anchors: Seq<AnchorView>,
    class: LinkClass,
) -> Seq<LinkInfoView>
    decreases anchors.len(),
{
    if anchors.len() == 0 {
        Seq::empty()
    } else {
        let before = links_of_class(base, anchors.drop_last(), class);
        match link_of(base, anchors.last()) {
            Some((c, link)) => if c == class {
                before.push(link)
            } else {
                before
            },
            None => before,
        }
    }
}

/// `links` with the links that the anchors give added, class by class.
pub open spec fn with_links(
    links: ExtractLinksView,
    base: WebUrlView,
    anchors: Seq<AnchorView>,
) -> ExtractLinksView {
    ExtractLinksView {
        internal: links.internal + links_of_class(base, anchors, LinkClass::Internal),
        external: links.external + links_of_class(base, anchors, LinkClass::External),
        mailto: links.mailto + links_of_class(base, anchors, LinkClass::Mailto),
        phone: links.phone + links_of_class(base, anchors, LinkClass::Phone),
        anchor: links.anchor + links_of_class(base, anchors, LinkClass::Anchor),
        javascript: links.javascript + links_of_class(base, anchors, LinkClass::Javascript),
    }
}

/// Tells whether one of `links` has the target `url`.
pub open spec fn has_url(links: Seq<LinkInfoView>, url: Seq<char>) -> bool {
    exists|i: int| 0 <= i < links.len() && (#[trigger] links[i]).url == url
}

/// `links` without those whose target an earlier link has: of the links
/// with one target the first stays, in its place.
pub open spec fn dedup_by_url(links: Seq<LinkInfoView>) -> Seq<LinkInfoView>
    decreases links.len(),
{
    if links.len() == 0 {
        Seq::empty()
    } else {
        let before = dedup_by_url(links.drop_last());
        if has_url(before, links.last().url) {
            before
        } else {
            before.push(links.last())
        }
    }
}

/// Each class without duplicates.
pub open spec fn deduplicated(links: ExtractLinksView) -> ExtractLinksView {
    ExtractLinksView {
        internal: dedup_by_url(links.internal),
        external: dedup_by_url(links.external),
        mailto: dedup_by_url(links.mailto),
        phone: dedup_by_url(links.phone),
        anchor: dedup_by_url(links.anchor),
        javascript: dedup_by_url(links.javascript),
    }
}

/// The links of no page.
pub open spec fn no_links() -> ExtractLinksView {
    ExtractLinksView {
        internal: Seq::empty(),
        external: Seq::empty(),
        mailto: Seq::empty(),
        phone: Seq::empty(),
        anchor: Seq::empty(),
        javascript: Seq::empty(),
    }
}

/// The links that the anchors of a page at `base` give, without duplicates.
pub open spec fn extracted(base: WebUrlView, anchors: Seq<AnchorView>) -> ExtractLinksView {
    deduplicated(with_links(no_links(), base, anchors))
}

/// Removing duplicates keeps the targets: a target is among the links that
/// stay exactly if it was among the links.
pub proof fn lemma_dedup_keeps_urls(links: Seq<LinkInfoView>, url: Seq<char>)
    ensures
        has_url(dedup_by_url(links), url) <==> has_url(links, url),
    decreases links.len(),
{
    if links.len() > 0 {
        let init = links.drop_last();
        let before = dedup_by_url(init);
        lemma_dedup_keeps_urls(init, url);
        lemma_dedup_keeps_urls(init, links.last().url);
        if has_url(links, url) {
            let i = choose|i: int| 0 <= i < links.len() && (#[trigger] links[i]).url == url;
            if i < links.len() - 1 {
                assert(init[i].url == url);
                let j = choose|j: int| 0 <= j < before.len() && (#[trigger] before[j]).url == url;
                assert(dedup_by_url(links)[j] == before[j]);
            } else if has_url(before, links.last().url) {
            } else {
                assert(dedup_by_url(links)[before.len() as int].url == url);
            }
        }
        if has_url(dedup_by_url(links), url) {
            let j = choose|j: int|
                0 <= j < dedup_by_url(links).len() && (#[trigger] dedup_by_url(links)[j]).url
                    == url;
            if j < before.len() {
                assert(before[j].url == url);
                let i = choose|i: int| 0 <= i < init.len() && (#[trigger] init[i]).url == url;
                assert(links[i].url == url);
            } else {
                assert(links[links.len() - 1].url == url);
            }
        }
    }
}

/// After duplicates are removed no two links have the same target.
pub proof fn lemma_dedup_distinct(links: Seq<LinkInfoView>)
    ensures
        forall|i: int, j: int|
            0 <= i < j < dedup_by_url(links).len() ==> (#[trigger] dedup_by_url(links)[i]).url != (
            #[trigger] dedup_by_url(links)[j]).url,
    decreases links.len(),
{
    if links.len() > 0 {
        let before = dedup_by_url(links.drop_last());
        lemma_dedup_distinct(links.drop_last());
        let after = dedup_by_url(links);
        assert forall|i: int, j: int| 0 <= i < j < after.len() implies (#[trigger] after[i]).url != (
        #[trigger] after[j]).url by {
            if j < before.len() {
                assert(after[i] == before[i]);
                assert(after[j] == before[j]);
            } else {
                assert(after[i] == before[i]);
            }
        }
    }
}

/// Where no two links have the same target, removing duplicates changes
/// nothing.
pub proof fn lemma_dedup_of_distinct(links: Seq<LinkInfoView>)
    requires
        forall|i: int, j: int|
            0 <= i < j < links.len() ==> (#[trigger] links[i]).url != (#[trigger] links[j]).url,
    ensures
        dedup_by_url(links) == links,
    decreases links.len(),
{
    if links.len() > 0 {
        let init = links.drop_last();
        assert forall|i: int, j: int| 0 <= i < j < init.len() implies (#[trigger] init[i]).url != (
        #[trigger] init[j]).url by {
            assert(init[i] == links[i]);
            assert(init[j] == links[j]);
        }
        lemma_dedup_of_distinct(init);
        if has_url(init, links.last().url) {
            let i = choose|i: int|
                0 <= i < init.len() && (#[trigger] init[i]).url == links.last().url;
            assert(links[i].url == links[links.len() - 1].url);
        }
        assert(init.push(links.last()) == links);
    }
}

/// Removing duplicates twice is the same as removing them once.
pub proof fn lemma_dedup_idempotent(links: Seq<LinkInfoView>)
    ensures
        dedup_by_url(dedup_by_url(links)) == dedup_by_url(links),
{
    lemma_dedup_distinct(links);
    lemma_dedup_of_distinct(dedup_by_url(links));
}

/// Extracting the links of the same page twice gives the same links, class
/// by class, and removing duplicates from what was extracted changes
/// nothing.
pub proof fn lemma_extract_idempotent(
    a: ExtractLinksView,
    b: ExtractLinksView,
    base: WebUrlView,
    anchors: Seq<AnchorView>,
)
    requires
        a == extracted(base, anchors),
        b == extracted(base, anchors),
    ensures
        forall|class: LinkClass| a.of_class(class).to_multiset() == b.of_class(class).to_multiset(),
        deduplicated(a) == a,
{
    let all = with_links(no_links(), base, anchors);
    lemma_dedup_idempotent(all.internal);
    lemma_dedup_idempotent(all.external);
    lemma_dedup_idempotent(all.mailto);
    lemma_dedup_idempotent(all.phone);
    lemma_dedup_idempotent(all.anchor);
    lemma_dedup_idempotent(all.javascript);
}

proof fn lemma_with_links_step(
    links: ExtractLinksView,
    base: WebUrlView,
    anchors: Seq<AnchorView>,
    i: int,
)
    requires
        0 <= i < anchors.len(),
    ensures
        with_links(links, base, anchors.take(i + 1)) == match link_of(base, anchors[i]) {
            Some((class, link)) => with_links(links, base, anchors.take(i)).with(class, link),
            None => with_links(links, base, anchors.take(i)),
        },
{
    let shorter = anchors.take(i);
    let longer = anchors.take(i + 1);
    assert(longer.drop_last() == shorter);
    assert(longer.last() == anchors[i]);
    let a = with_links(links, base, longer);
    let b = match link_of(base, anchors[i]) {
        Some((class, link)) => with_links(links, base, shorter).with(class, link),
        None => with_links(links, base, shorter),
    };
    assert(a.internal =~= b.internal);
    assert(a.external =~= b.external);
    assert(a.mailto =~= b.mailto);
    assert(a.phone =~= b.phone);
    assert(a.anchor =~= b.anchor);
    assert(a.javascript =~= b.javascript);
}

/// The class of a web link, from the domain of the page, the domain of the
/// target and the reference as written.
pub fn classify_web_link(source_domain: &Vec<char>, link_domain: &Vec<char>, href: &Vec<char>) -> (r:
    Option<LinkClass>)
    ensures
        r == web_link_class(source_domain@, link_domain@, href@),
{
    if crate::text::same_chars(link_domain, source_domain) && source_domain.len() > 0 {
        Some(LinkClass::Internal)
    } else if link_domain.len() > 0 {
        Some(LinkClass::External)
    } else if starts_with(href, &to_chars("/")) || starts_with(href, &to_chars("./"))
        || starts_with(href, &to_chars("../")) {
        Some(LinkClass::Internal)
    } else {
        None
    }
}

fn domain_chars(u: &WebUrl) -> (r: Vec<char>)
    ensures
        r@ == domain_or_empty(u@),
{
    match &u.domain {
        Some(d) => to_chars(d.as_str()),
        None => Vec::new(),
    }
}

/// Finds the class and target of the link with the reference `href` on the
/// page at `base`.
pub fn classify_link(base: &WebUrl, href: &str) -> (r: Option<(LinkClass, String)>)
    ensures
        match classify(base@, href@) {
            Some((class, url)) => r.is_some() && r.unwrap().0 == class && r.unwrap().1@ == url,
            None => r.is_none(),
        },
{
    let chars = to_chars(href);
    if starts_with(&chars, &to_chars("javascript:")) {
        Some((LinkClass::Javascript, from_chars(&chars)))
    } else if starts_with(&chars, &to_chars("mailto:")) {
        Some((LinkClass::Mailto, from_chars(&chars)))
    } else if starts_with(&chars, &to_chars("tel:")) {
        Some((LinkClass::Phone, from_chars(&chars)))
    } else if starts_with(&chars, &to_chars("#")) {
        match crate::web_url::join_href(base, href) {
            Some(target) => Some((LinkClass::Anchor, target)),
            None => None,
        }
    } else {
        match base.resolve(href) {
            Some(target) => {
                let source_domain = domain_chars(base);
                let link_domain = domain_chars(&target);
                match classify_web_link(&source_domain, &link_domain, &chars) {
                    Some(class) => Some((class, target.href)),
                    None => None,
                }
            },
            None => None,
        }
    }
}

/// Trims the text of a link and cuts it after `MAX_LINK_TEXT` characters.
pub fn shorten_text(raw: &str) -> (r: String)
    ensures
        r@ == link_text(raw@),
{
    let t = trim(&to_chars(raw));
    if t.len() > MAX_LINK_TEXT {
        from_chars(&slice_of(&t, 0, MAX_LINK_TEXT))
    } else {
        from_chars(&t)
    }
}

fn contains_url(links: &Vec<LinkInfo>, url: &String) -> (r: bool)
    ensures
        r == has_url(links.deep_view(), url@),
{
    let ghost views = links.deep_view();
    let mut i: usize = 0;
    while i < links.len()
        invariant
            i <= links.len(),
            views == links.deep_view(),
            forall|j: int| 0 <= j < i ==> (#[trigger] views[j]).url != url@,
        decreases links.len() - i,
    {
        assert(views[i as int] == links[i as int]@);
        if links[i].url == *url {
            return true;
        }
        i += 1;
    }
    false
}

impl ExtractLinks {
    /// No links.
    pub fn new() -> (r: Self)
        ensures
            r@ == no_links(),
    {
        let r = ExtractLinks {
            internal: Vec::new(),
            external: Vec::new(),
            mailto: Vec::new(),
            phone: Vec::new(),
            anchor: Vec::new(),
            javascript: Vec::new(),
        };
        assert(r@.internal =~= Seq::empty());
        assert(r@.external =~= Seq::empty());
        assert(r@.mailto =~= Seq::empty());
        assert(r@.phone =~= Seq::empty());
        assert(r@.anchor =~= Seq::empty());
        assert(r@.javascript =~= Seq::empty());
        r
    }

    /// Finds the links of the page at `url` whose text is `html`, each
    /// target once per class.
    pub fn extract(url: &WebUrl, html: &str) -> (r: Self)
        ensures
            r@ == extracted(url@, html_anchors(html@)),
    {
        let mut extractor = Self::new();
        extractor.parse(url, html);
        extractor.deduplicate();
        proof {
            let found = html_anchors(html@);
            assert(Seq::<LinkInfoView>::empty() + links_of_class(url@, found, LinkClass::Internal)
                =~= links_of_class(url@, found, LinkClass::Internal));
        }
        extractor
    }

    /// Adds the links of the page at `url` whose text is `html`.
    pub fn parse(&mut self, url: &WebUrl, html: &str)
        ensures
            final(self)@ == with_links(old(self)@, url@, html_anchors(html@)),
    {
        let found = select_anchors(html);
        self.add_anchors(url, &found);
    }

    /// Adds the links that `anchors`, found on the page at `url`, give.
    pub fn add_anchors(&mut self, url: &WebUrl, anchors: &Vec<Anchor>)
        ensures
            final(self)@ == with_links(old(self)@, url@, anchors.deep_view()),
    {
        let ghost all = anchors.deep_view();
        let mut i: usize = 0;
        assert(all.take(0) =~= Seq::empty());
        assert(self@.internal + Seq::empty() =~= self@.internal);
        assert(self@.external + Seq::empty() =~= self@.external);
        assert(self@.mailto + Seq::empty() =~= self@.mailto);
        assert(self@.phone + Seq::empty() =~= self@.phone);
        assert(self@.anchor + Seq::empty() =~= self@.anchor);
        assert(self@.javascript + Seq::empty() =~= self@.javascript);
        while i < anchors.len()
            invariant
                i <= anchors.len(),
                all == anchors.deep_view(),
                self@ == with_links(old(self)@, url@, all.take(i as int)),
            decreases anchors.len() - i,
        {
            let a = &anchors[i];
            proof {
                assert(all[i as int] == a@);
                lemma_with_links_step(old(self)@, url@, all, i as int);
            }
            if !a.href.as_str().is_empty() {
                match classify_link(url, a.href.as_str()) {
                    Some((class, target)) => {
                        let link = LinkInfo {
                            url: target,
                            text: shorten_text(a.text.as_str()),
                            title: clone_text(&a.title),
                            rel: clone_text(&a.rel),
                            target: clone_text(&a.target),
                        };
                        self.add(class, link);
                    },
                    None => {},
                }
            }
            i += 1;
        }
        assert(all.take(anchors.len() as int) == all);
    }

    /// Adds one link to its class.
    pub fn add(&mut self, class: LinkClass, link: LinkInfo)
        ensures
            final(self)@ == old(self)@.with(class, link@),
    {
        match class {
            LinkClass::Internal => {
                self.internal.push(link);
                assert(self@.internal =~= old(self)@.internal.push(link@));
            },
            LinkClass::External => {
                self.external.push(link);
                assert(self@.external =~= old(self)@.external.push(link@));
            },
            LinkClass::Mailto => {
                self.mailto.push(link);
                assert(self@.mailto =~= old(self)@.mailto.push(link@));
            },
            LinkClass::Phone => {
                self.phone.push(link);
                assert(self@.phone =~= old(self)@.phone.push(link@));
            },
            LinkClass::Anchor => {
                self.anchor.push(link);
                assert(self@.anchor =~= old(self)@.anchor.push(link@));
            },
            LinkClass::Javascript => {
                self.javascript.push(link);
                assert(self@.javascript =~= old(self)@.javascript.push(link@));
            },
        }
    }

    /// Removes from every class the links whose target an earlier link of
    /// the class has.
    pub fn deduplicate(&mut self)
        ensures
            final(self)@ == deduplicated(old(self)@),
    {
        self.internal = self.deduplicate_vec(self.internal.as_slice());
        self.external = self.deduplicate_vec(self.external.as_slice());
        self.mailto = self.deduplicate_vec(self.mailto.as_slice());
        self.phone = self.deduplicate_vec(self.phone.as_slice());
        self.anchor = self.deduplicate_vec(self.anchor.as_slice());
        self.javascript = self.deduplicate_vec(self.javascript.as_slice());
    }

    /// Copies `links` without those whose target an earlier link has.
    pub fn deduplicate_vec(&self, links: &[LinkInfo]) -> (r: Vec<LinkInfo>)
        ensures
            r.deep_view() == dedup_by_url(links.deep_view()),
    {
        let ghost all = links.deep_view();
        let mut kept: Vec<LinkInfo> = Vec::new();
        let mut i: usize = 0;
        assert(all.take(0) =~= Seq::empty());
        assert(kept.deep_view() =~= Seq::empty());
        while i < links.len()
            invariant
                i <= links.len(),
                all == links.deep_view(),
                kept.deep_view() == dedup_by_url(all.take(i as int)),
            decreases links.len() - i,
        {
            let ghost before = kept.deep_view();
            proof {
                assert(all.take(i + 1).drop_last() == all.take(i as int));
                assert(all.take(i + 1).last() == links[i as int]@);
            }
            if !contains_url(&kept, &links[i].url) {
                kept.push(links[i].clone());
                assert(kept.deep_view() =~= before.push(links[i as int]@));
            }
            i += 1;
        }
        assert(all.take(links.len() as int) == all);
        kept
    }
}

} // verus!
