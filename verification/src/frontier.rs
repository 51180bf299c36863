//! The frontier store: the queue of URLs of a crawl session, the pages that
//! were saved, the links found on them, and the per-host records. Every
//! operation keeps at most one queue entry and one page per session and URL.

use vstd::prelude::*;
use crate::content_hash::{content_hash, fingerprint};
use crate::extract_links::{classify_link, link_of, shorten_text, LinkClass};
use crate::fetch::{FetchedPage, FetchedPageView};
use crate::html::{
    description, html_anchors, html_description, html_title, select_anchors, title, Anchor,
    AnchorView,
};
use crate::numbers::{integer_of, parse_integer};
use crate::text::{first_index_of, lemma_first_index_of, lemma_first_index_of_bounds, to_chars};
use crate::web_url::{clone_text, WebUrl, WebUrlView};

verus! {

/// Where a queued URL stands. An entry goes from pending to processing and
/// from there to completed or failed.
#[derive(Debug, Clone, Copy, PartialEq, Eq, Structural)]
pub enum EntryStatus {
    Pending,
    Processing,
    Completed,
    Failed,
}

/// A URL queued to visit.
#[derive(Debug)]
pub struct FrontierEntry {
    pub session_id: i64,
    /// The URL, absolute and normalized.
    pub url: String,
    /// Larger is sooner.
    pub priority: i32,
    pub retry_count: u32,
    pub status: EntryStatus,
}

/// The mathematical value of a [`FrontierEntry`].
pub struct FrontierEntryView {
    pub session_id: i64,
    pub url: Seq<char>,
    pub priority: i32,
    pub retry_count: u32,
    pub status: EntryStatus,
}

impl View for FrontierEntry {
    type V = FrontierEntryView;

    open spec fn view(&self) -> FrontierEntryView {
        FrontierEntryView {
            session_id: self.session_id,
            url: self.url@,
            priority: self.priority,
            retry_count: self.retry_count,
            status: self.status,
        }
    }
}

impl DeepView for FrontierEntry {
    type V = FrontierEntryView;

    open spec fn deep_view(&self) -> FrontierEntryView {
        self@
    }
}

/// The result of a successful fetch as it is kept.
#[derive(Debug)]
pub struct SavedPage {
    pub session_id: i64,
    /// The URL that was asked for.
    pub url: String,
    /// The URL that answered, after redirects.
    pub final_url: String,
    pub status_code: u16,
    pub content_type: Option<String>,
    pub content_length: Option<i64>,
    /// The SHA-256 digest of the body in lowercase hexadecimal.
    pub content_hash: String,
    pub html_content: String,
    pub title: Option<String>,
    pub description: Option<String>,
    /// When the page was fetched, in milliseconds of the caller's clock.
    pub fetched_at: u64,
}

/// The mathematical value of a [`SavedPage`].
pub struct SavedPageView {
    pub session_id: i64,
    pub url: Seq<char>,
    pub final_url: Seq<char>,
    pub status_code: u16,
    pub content_type: Option<Seq<char>>,
    pub content_length: Option<i64>,
    pub content_hash: Seq<char>,
    pub html_content: Seq<char>,
    pub title: Option<Seq<char>>,
    pub description: Option<Seq<char>>,
    pub fetched_at: u64,
}

impl View for SavedPage {
    type V = SavedPageView;

    open spec fn view(&self) -> SavedPageView {
        SavedPageView {
            session_id: self.session_id,
            url: self.url@,
            final_url: self.final_url@,
            status_code: self.status_code,
            content_type: self.content_type.deep_view(),
            content_length: self.content_length,
            content_hash: self.content_hash@,
            html_content: self.html_content@,
            title: self.title.deep_view(),
            description: self.description.deep_view(),
            fetched_at: self.fetched_at,
        }
    }
}

impl DeepView for SavedPage {
    type V = SavedPageView;

    open spec fn deep_view(&self) -> SavedPageView {
        self@
    }
}

/// A link discovered on a saved page.
#[derive(Debug)]
pub struct OutLink {
    /// The place of the page in the list of saved pages.
    pub source_page_id: usize,
    /// The target, in resolved form.
    pub target_url: String,
    /// The text of the link, if it has any.
    pub link_text: Option<String>,
    pub classification: LinkClass,
}

/// The mathematical value of an [`OutLink`].
pub struct OutLinkView {
    pub source_page_id: usize,
    pub target_url: Seq<char>,
    pub link_text: Option<Seq<char>>,
    pub classification: LinkClass,
}

impl View for OutLink {
    type V = OutLinkView;

    open spec fn view(&self) -> OutLinkView {
        OutLinkView {
            source_page_id: self.source_page_id,
            target_url: self.target_url@,
            link_text: self.link_text.deep_view(),
            classification: self.classification,
        }
    }
}

impl DeepView for OutLink {
    type V = OutLinkView;

    open spec fn deep_view(&self) -> OutLinkView {
        self@
    }
}

/// What is known and decided about a host.
#[derive(Debug)]
pub struct DomainRecord {
    pub host: String,
    /// Whether the operator lets the host be crawled.
    pub allow_crawl: bool,
    /// The robots.txt file of the host as it was fetched.
    pub robots_text: Option<String>,
    pub robots_fetched_at: Option<u64>,
}

/// The mathematical value of a [`DomainRecord`].
pub struct DomainRecordView {
    pub host: Seq<char>,
    pub allow_crawl: bool,
    pub robots_text: Option<Seq<char>>,
    pub robots_fetched_at: Option<u64>,
}

impl View for DomainRecord {
    type V = DomainRecordView;

    open spec fn view(&self) -> DomainRecordView {
        DomainRecordView {
            host: self.host@,
            allow_crawl: self.allow_crawl,
            robots_text: self.robots_text.deep_view(),
            robots_fetched_at: self.robots_fetched_at,
        }
    }
}

impl DeepView for DomainRecord {
    type V = DomainRecordView;

    open spec fn deep_view(&self) -> DomainRecordView {
        self@
    }
}

/// Why the store refused an operation.
#[derive(Debug, Clone, Copy, PartialEq, Eq, Structural)]
pub enum StoreError {
    /// The URL has no host, so no host record speaks for it.
    NoHost,
    /// The queue entry is not in a state that the operation can leave.
    InvalidTransition,
}

/// How many URLs a call of `add_to_queue` took in and passed over.
#[derive(Debug, Clone, Copy, PartialEq, Eq, Structural)]
pub struct QueueCounts {
    pub added: usize,
    pub skipped: usize,
}

/// The keys of queue entries: session and URL.
pub open spec fn entry_keys(entries: Seq<FrontierEntryView>) -> Seq<(i64, Seq<char>)> {
    Seq::new(entries.len(), |i: int| (entries[i].session_id, entries[i].url))
}

/// The keys of saved pages: session and URL.
pub open spec fn page_keys(pages: Seq<SavedPageView>) -> Seq<(i64, Seq<char>)> {
    Seq::new(pages.len(), |i: int| (pages[i].session_id, pages[i].url))
}

/// The hosts of host records.
pub open spec fn record_hosts(domains: Seq<DomainRecordView>) -> Seq<Seq<char>> {
    Seq::new(domains.len(), |i: int| domains[i].host)
}

/// The mathematical value of a [`FrontierStore`].
pub struct FrontierStoreView {
    pub session_id: i64,
    pub entries: Seq<FrontierEntryView>,
    pub pages: Seq<SavedPageView>,
    pub links: Seq<OutLinkView>,
    pub domains: Seq<DomainRecordView>,
}

impl FrontierStoreView {
    /// What every store upholds: at most one queue entry and at most one
    /// page for a session and URL, at most one record for a host, and every
    /// link on a page that is there.
    pub open spec fn well_formed(self) -> bool {
        &&& entry_keys(self.entries).no_duplicates()
        &&& page_keys(self.pages).no_duplicates()
        &&& record_hosts(self.domains).no_duplicates()
        &&& forall|i: int|
            0 <= i < self.links.len() ==> (#[trigger] self.links[i]).source_page_id
                < self.pages.len()
    }

    /// The place of the queue entry for `url` in the session of the store,
    /// or the number of entries if there is none.
    pub open spec fn entry_index(self, url: Seq<char>) -> int {
        first_index_of(entry_keys(self.entries), (self.session_id, url))
    }

    /// The place of the saved page for `url` in the session of the store, or
    /// the number of pages if there is none.
    pub open spec fn page_index(self, url: Seq<char>) -> int {
        first_index_of(page_keys(self.pages), (self.session_id, url))
    }

    /// The place of the record of `host`, or the number of records if there
    /// is none.
    pub open spec fn host_index(self, host: Seq<char>) -> int {
        first_index_of(record_hosts(self.domains), host)
    }

    /// Tells whether a page is saved for `url` in the session of the store.
    pub open spec fn has_page(self, url: Seq<char>) -> bool {
        self.page_index(url) < self.pages.len()
    }

    /// Tells whether entry `i` may be handed out: it belongs to the session
    /// of the store and is pending.
    pub open spec fn eligible(self, i: int) -> bool {
        &&& 0 <= i < self.entries.len()
        &&& self.entries[i].session_id == self.session_id
        &&& self.entries[i].status == EntryStatus::Pending
    }

    /// Tells whether entry `i` is the one to hand out next: the first of the
    /// eligible entries with the highest priority.
    pub open spec fn is_next(self, i: int) -> bool {
        &&& self.eligible(i)
        &&& forall|j: int|
            self.eligible(j) ==> (#[trigger] self.entries[j]).priority <= self.entries[i].priority
        &&& forall|j: int|
            self.eligible(j) && j < i ==> (#[trigger] self.entries[j]).priority
                < self.entries[i].priority
    }

    /// The place of the entry to hand out next, if an entry is eligible.
    pub open spec fn next_index(self) -> Option<int> {
        if exists|i: int| self.is_next(i) {
            Some(choose|i: int| self.is_next(i))
        } else {
            None
        }
    }

    /// The store with entry `i` in the given status.
    pub open spec fn with_status(self, i: int, status: EntryStatus) -> FrontierStoreView {
        FrontierStoreView {
            entries: self.entries.update(i, FrontierEntryView { status, ..self.entries[i] }),
            ..self
        }
    }

    /// How many entries are eligible.
    pub open spec fn pending_count(self) -> nat {
        count_pending(self.entries, self.session_id)
    }

    /// The store after the entry for `url` was marked as visited, or the
    /// reason why it cannot be: an entry that is being processed becomes
    /// completed; a completed entry and a URL without entry change
    /// nothing; an entry that is pending or failed cannot be completed.
    pub open spec fn visited(self, url: Seq<char>) -> Result<FrontierStoreView, StoreError> {
        let at = self.entry_index(url);
        if at >= self.entries.len() {
            Ok(self)
        } else {
            match self.entries[at].status {
                EntryStatus::Processing => Ok(self.with_status(at, EntryStatus::Completed)),
                EntryStatus::Completed => Ok(self),
                _ => Err(StoreError::InvalidTransition),
            }
        }
    }

    /// Whether the operator lets `host` be crawled, and the store after the
    /// question: a host without record gets one that allows it.
    pub open spec fn policy_checked(self, host: Seq<char>) -> (FrontierStoreView, bool) {
        let at = self.host_index(host);
        if at < self.domains.len() {
            (self, self.domains[at].allow_crawl)
        } else {
            (
                FrontierStoreView { domains: self.domains.push(default_record(host)), ..self },
                true,
            )
        }
    }

    /// The robots.txt file that is kept for `host`.
    pub open spec fn robots_text(self, host: Seq<char>) -> Option<Seq<char>> {
        let at = self.host_index(host);
        if at < self.domains.len() {
            self.domains[at].robots_text
        } else {
            None
        }
    }

    /// The store after the robots.txt file of `host` was fetched at time
    /// `now`. A host without record gets one that allows it.
    pub open spec fn with_robots_text(
        self,
        host: Seq<char>,
        text: Option<Seq<char>>,
        now: u64,
    ) -> FrontierStoreView {
        let at = self.host_index(host);
        let record = DomainRecordView {
            host,
            allow_crawl: if at < self.domains.len() {
                self.domains[at].allow_crawl
            } else {
                true
            },
            robots_text: text,
            robots_fetched_at: Some(now),
        };
        FrontierStoreView {
            domains: if at < self.domains.len() {
                self.domains.update(at, record)
            } else {
                self.domains.push(record)
            },
            ..self
        }
    }
}

/// How many of the entries belong to the session and are pending.
pub open spec fn count_pending(entries: Seq<FrontierEntryView>, session_id: i64) -> nat
    decreases entries.len(),
{
    if entries.len() == 0 {
        0
    } else {
        count_pending(entries.drop_last(), session_id) + if entries.last().session_id
            == session_id && entries.last().status == EntryStatus::Pending {
            1nat
        } else {
            0nat
        }
    }
}

/// The entry that a newly queued URL gets.
pub open spec fn pending_entry(session_id: i64, url: Seq<char>) -> FrontierEntryView {
    FrontierEntryView { session_id, url, priority: 0, retry_count: 0, status: EntryStatus::Pending }
}

/// The store after the URLs were queued one by one: a URL that has an entry
/// in the session already, in whatever status, is passed over.
pub open spec fn enqueued(store: FrontierStoreView, urls: Seq<Seq<char>>) -> FrontierStoreView
    decreases urls.len(),
{
    if urls.len() == 0 {
        store
    } else {
        let before = enqueued(store, urls.drop_last());
        if before.entry_index(urls.last()) < before.entries.len() {
            before
        } else {
            FrontierStoreView {
                entries: before.entries.push(pending_entry(store.session_id, urls.last())),
                ..before
            }
        }
    }
}

/// The store after every entry of its session that was being processed is
/// pending again.
pub open spec fn recovered(store: FrontierStoreView) -> FrontierStoreView {
    FrontierStoreView {
        entries: Seq::new(
            store.entries.len(),
            |i: int|
                if store.entries[i].session_id == store.session_id && store.entries[i].status
                    == EntryStatus::Processing {
                    FrontierEntryView { status: EntryStatus::Pending, ..store.entries[i] }
                } else {
                    store.entries[i]
                },
        ),
        ..store
    }
}

/// What is read out of the body of a page before it is saved.
#[derive(Debug)]
pub struct PageFacts {
    /// The first text of the `<title>` element.
    pub title: Option<String>,
    /// The `content` of the `description` meta tag.
    pub description: Option<String>,
    /// The SHA-256 digest of the body in lowercase hexadecimal.
    pub content_hash: String,
    /// The anchors of the page that carry a reference.
    pub anchors: Vec<Anchor>,
}

/// The mathematical value of a [`PageFacts`].
pub struct PageFactsView {
    pub title: Option<Seq<char>>,
    pub description: Option<Seq<char>>,
    pub content_hash: Seq<char>,
    pub anchors: Seq<AnchorView>,
}

impl View for PageFacts {
    type V = PageFactsView;

    open spec fn view(&self) -> PageFactsView {
        PageFactsView {
            title: self.title.deep_view(),
            description: self.description.deep_view(),
            content_hash: self.content_hash@,
            anchors: self.anchors.deep_view(),
        }
    }
}

/// What is read out of a page body.
pub open spec fn facts_of(html: Seq<char>) -> PageFactsView {
    PageFactsView {
        title: html_title(html),
        description: html_description(html),
        content_hash: fingerprint(html),
        anchors: html_anchors(html),
    }
}

/// The record that is kept of a fetched page.
pub open spec fn page_record(session_id: i64, page: FetchedPageView, facts: PageFactsView) -> SavedPageView {
    SavedPageView {
        session_id,
        url: page.url.href,
        final_url: page.final_url.href,
        status_code: page.status_code,
        content_type: page.content_type,
        content_length: match page.content_length {
            Some(text) => integer_of(text),
            None => None,
        },
        content_hash: facts.content_hash,
        html_content: page.html_content,
        title: facts.title,
        description: facts.description,
        fetched_at: page.timestamp_ms,
    }
}

/// The links that the anchors of a page give, one for each anchor that the
/// link extractor gives a class, in the order of the anchors.
pub open spec fn out_links(page_id: usize, base: WebUrlView, anchors: Seq<AnchorView>) -> Seq<
    OutLinkView,
>
    decreases anchors.len(),
{
    if anchors.len() == 0 {
        Seq::empty()
    } else {
        let before = out_links(page_id, base, anchors.drop_last());
        match link_of(base, anchors.last()) {
            Some((class, link)) => before.push(
                OutLinkView {
                    source_page_id: page_id,
                    target_url: link.url,
                    link_text: if link.text.len() == 0 {
                        None
                    } else {
                        Some(link.text)
                    },
                    classification: class,
                },
            ),
            None => before,
        }
    }
}

/// The store after a page was saved with what was read out of its body:
/// the record takes the place of the record that the URL had, or is added
/// if it had none, and the links of the page are added.
pub open spec fn saved_with(
    store: FrontierStoreView,
    page: FetchedPageView,
    facts: PageFactsView,
) -> FrontierStoreView {
    let record = page_record(store.session_id, page, facts);
    let at = store.page_index(page.url.href);
    FrontierStoreView {
        pages: if at < store.pages.len() {
            store.pages.update(at, record)
        } else {
            store.pages.push(record)
        },
        links: store.links + out_links(at as usize, page.url, facts.anchors),
        ..store
    }
}

/// The store after a page was saved.
pub open spec fn saved(store: FrontierStoreView, page: FetchedPageView) -> FrontierStoreView {
    saved_with(store, page, facts_of(page.html_content))
}

/// The record that a host gets when it is first met.
pub open spec fn default_record(host: Seq<char>) -> DomainRecordView {
    DomainRecordView { host, allow_crawl: true, robots_text: None, robots_fetched_at: None }
}

/// Adding a key that is not among distinct keys leaves them distinct.
pub proof fn lemma_push_distinct<K>(keys: Seq<K>, key: K)
    requires
        keys.no_duplicates(),
        first_index_of(keys, key) == keys.len(),
    ensures
        keys.push(key).no_duplicates(),
{
    lemma_first_index_of_bounds(keys, key);
    let after = keys.push(key);
    assert forall|i: int, j: int| 0 <= i < after.len() && 0 <= j < after.len() && i != j implies after[i]
        != after[j] by {
        if i < keys.len() && j < keys.len() {
            assert(after[i] == keys[i] && after[j] == keys[j]);
        } else if i < keys.len() {
            assert(after[i] == keys[i]);
        } else {
            assert(after[j] == keys[j]);
        }
    }
}

/// Queueing URLs changes the queue only.
pub proof fn lemma_enqueued_keeps_rest(store: FrontierStoreView, urls: Seq<Seq<char>>)
    ensures
        enqueued(store, urls).session_id == store.session_id,
        enqueued(store, urls).pages == store.pages,
        enqueued(store, urls).links == store.links,
        enqueued(store, urls).domains == store.domains,
    decreases urls.len(),
{
    if urls.len() > 0 {
        lemma_enqueued_keeps_rest(store, urls.drop_last());
    }
}

/// Queueing URLs keeps the store well formed, keeps every entry that was
/// there, and leaves pages, links and host records alone.
pub proof fn lemma_enqueued(store: FrontierStoreView, urls: Seq<Seq<char>>)
    requires
        store.well_formed(),
    ensures
        enqueued(store, urls).well_formed(),
        enqueued(store, urls).session_id == store.session_id,
        enqueued(store, urls).pages == store.pages,
        enqueued(store, urls).links == store.links,
        enqueued(store, urls).domains == store.domains,
        store.entries.len() <= enqueued(store, urls).entries.len() <= store.entries.len()
            + urls.len(),
        enqueued(store, urls).entries.take(store.entries.len() as int) == store.entries,
        forall|k: int|
            0 <= k < urls.len() ==> enqueued(store, urls).entry_index(#[trigger] urls[k])
                < enqueued(store, urls).entries.len(),
    decreases urls.len(),
{
    if urls.len() == 0 {
        assert(store.entries.take(store.entries.len() as int) == store.entries);
    } else {
        let before = enqueued(store, urls.drop_last());
        let after = enqueued(store, urls);
        lemma_enqueued(store, urls.drop_last());
        let key = (store.session_id, urls.last());
        if before.entry_index(urls.last()) < before.entries.len() {
        } else {
            lemma_first_index_of_bounds(entry_keys(before.entries), key);
            lemma_push_distinct(entry_keys(before.entries), key);
            assert(entry_keys(after.entries) =~= entry_keys(before.entries).push(key));
            assert(after.entries.take(store.entries.len() as int) =~= before.entries.take(
                store.entries.len() as int,
            ));
            lemma_first_index_of(entry_keys(after.entries), key, before.entries.len() as int);
        }
        assert forall|k: int| 0 <= k < urls.len() implies after.entry_index(#[trigger] urls[k])
            < after.entries.len() by {
            if k < urls.len() - 1 {
                assert(urls.drop_last()[k] == urls[k]);
                let other = (store.session_id, urls[k]);
                lemma_first_index_of_bounds(entry_keys(before.entries), other);
                lemma_first_index_of_bounds(entry_keys(after.entries), other);
                let at = before.entry_index(urls[k]);
                assert(entry_keys(after.entries)[at] == entry_keys(before.entries)[at]);
            }
        }
    }
}

/// At most one entry is the next to hand out.
pub proof fn lemma_next_unique(store: FrontierStoreView, i: int, j: int)
    requires
        store.is_next(i),
        store.is_next(j),
    ensures
        i == j,
{
    if i < j {
        assert(store.entries[i].priority < store.entries[j].priority);
        assert(store.entries[j].priority <= store.entries[i].priority);
    } else if j < i {
        assert(store.entries[j].priority < store.entries[i].priority);
        assert(store.entries[i].priority <= store.entries[j].priority);
    }
}

/// Handing out an entry leaves one entry less to hand out.
pub proof fn lemma_pending_after_take(entries: Seq<FrontierEntryView>, session_id: i64, i: int)
    requires
        0 <= i < entries.len(),
        entries[i].session_id == session_id,
        entries[i].status == EntryStatus::Pending,
    ensures
        count_pending(
            entries.update(
                i,
                FrontierEntryView { status: EntryStatus::Processing, ..entries[i] },
            ),
            session_id,
        ) + 1 == count_pending(entries, session_id),
    decreases entries.len(),
{
    let taken = FrontierEntryView { status: EntryStatus::Processing, ..entries[i] };
    let after = entries.update(i, taken);
    if i == entries.len() - 1 {
        assert(after.drop_last() =~= entries.drop_last());
    } else {
        assert(after.drop_last() =~= entries.drop_last().update(i, taken));
        assert(entries.drop_last()[i] == entries[i]);
        lemma_pending_after_take(entries.drop_last(), session_id, i);
    }
}

/// Only saving a page makes a URL seen: queueing, handing out, marking as
/// visited, recovering, asking for the policy of a host and keeping its
/// robots.txt file leave every URL as seen or unseen as it was, and in a
/// new store no URL is seen.
pub proof fn lemma_seen_only_by_save(
    store: FrontierStoreView,
    url: Seq<char>,
    urls: Seq<Seq<char>>,
    i: int,
    status: EntryStatus,
    host: Seq<char>,
    text: Option<Seq<char>>,
    now: u64,
)
    requires
        store.well_formed(),
    ensures
        !empty_store(store.session_id).has_page(url),
        enqueued(store, urls).has_page(url) == store.has_page(url),
        store.with_status(i, status).has_page(url) == store.has_page(url),
        store.visited(url) is Ok ==> store.visited(url)->Ok_0.has_page(url) == store.has_page(url),
        recovered(store).has_page(url) == store.has_page(url),
        store.policy_checked(host).0.has_page(url) == store.has_page(url),
        store.with_robots_text(host, text, now).has_page(url) == store.has_page(url),
{
    lemma_enqueued(store, urls);
    assert(page_keys(empty_store(store.session_id).pages) =~= Seq::empty());
}

/// Recovering keeps the store well formed, keeps all pages, and makes every
/// entry of the session that was being processed eligible again, while
/// the other entries stay as they are.
pub proof fn lemma_recovered(store: FrontierStoreView)
    requires
        store.well_formed(),
    ensures
        recovered(store).well_formed(),
        recovered(store).pages == store.pages,
        recovered(store).entries.len() == store.entries.len(),
        forall|i: int|
            0 <= i < store.entries.len() && (#[trigger] store.entries[i]).session_id
                == store.session_id && store.entries[i].status == EntryStatus::Processing
                ==> recovered(store).eligible(i),
        forall|i: int|
            0 <= i < store.entries.len() && !((#[trigger] store.entries[i]).session_id
                == store.session_id && store.entries[i].status == EntryStatus::Processing)
                ==> recovered(store).entries[i] == store.entries[i],
{
    assert(entry_keys(recovered(store).entries) =~= entry_keys(store.entries));
}

/// An entry that was handed out is being processed and is not the next to
/// hand out, nor is any other entry for its URL: a URL is not handed out a
/// second time.
pub proof fn lemma_handed_out_once(store: FrontierStoreView, i: int)
    requires
        store.well_formed(),
        store.is_next(i),
    ensures
        store.with_status(i, EntryStatus::Processing).well_formed(),
        store.with_status(i, EntryStatus::Processing).entries[i].status == EntryStatus::Processing,
        forall|j: int|
            store.with_status(i, EntryStatus::Processing).is_next(j) ==> store.with_status(
                i,
                EntryStatus::Processing,
            ).entries[j].url != store.entries[i].url,
{
    let after = store.with_status(i, EntryStatus::Processing);
    assert(entry_keys(after.entries) =~= entry_keys(store.entries));
    assert forall|j: int| after.is_next(j) implies after.entries[j].url != store.entries[i].url by {
        assert(j != i);
        assert(entry_keys(store.entries)[j] != entry_keys(store.entries)[i]);
    }
}

/// Saving a page keeps the store well formed and leaves exactly one page
/// for the URL: a page that was there is replaced in its place, and no
/// other page changes.
pub proof fn lemma_saved(store: FrontierStoreView, page: FetchedPageView, facts: PageFactsView)
    requires
        store.well_formed(),
        store.pages.len() <= usize::MAX,
    ensures
        saved_with(store, page, facts).well_formed(),
        saved_with(store, page, facts).has_page(page.url.href),
        saved_with(store, page, facts).page_index(page.url.href) == store.page_index(
            page.url.href,
        ),
        store.has_page(page.url.href) ==> saved_with(store, page, facts).pages.len()
            == store.pages.len(),
        !store.has_page(page.url.href) ==> saved_with(store, page, facts).pages.len()
            == store.pages.len() + 1,
        forall|i: int|
            0 <= i < store.pages.len() && i != store.page_index(page.url.href) ==> saved_with(
                store,
                page,
                facts,
            ).pages[i] == store.pages[i],
        forall|other: Seq<char>|
            other != page.url.href ==> (saved_with(store, page, facts).has_page(other)
                <==> store.has_page(other)),
        saved_with(store, page, facts).entries == store.entries,
        saved_with(store, page, facts).domains == store.domains,
{
    let after = saved_with(store, page, facts);
    let key = (store.session_id, page.url.href);
    let at = store.page_index(page.url.href);
    let keys = page_keys(store.pages);
    lemma_first_index_of_bounds(keys, key);
    lemma_out_links_source(at as usize, page.url, facts.anchors);
    if at < store.pages.len() {
        assert(page_keys(after.pages) =~= keys);
    } else {
        lemma_push_distinct(keys, key);
        assert(page_keys(after.pages) =~= keys.push(key));
        lemma_first_index_of(page_keys(after.pages), key, at);
    }
    assert forall|other: Seq<char>| other != page.url.href implies (after.has_page(other)
        <==> store.has_page(other)) by {
        let k = (store.session_id, other);
        lemma_first_index_of_bounds(keys, k);
        lemma_first_index_of_bounds(page_keys(after.pages), k);
        let a = first_index_of(keys, k);
        let b = first_index_of(page_keys(after.pages), k);
        if a < keys.len() {
            assert(page_keys(after.pages)[a] == k);
        }
        if b < page_keys(after.pages).len() {
            assert(b < keys.len());
            assert(keys[b] == k);
        }
    }
}

/// Saving a page makes its URL seen and leaves every URL seen that was
/// seen.
pub proof fn lemma_saved_keeps_seen(
    store: FrontierStoreView,
    page: FetchedPageView,
    facts: PageFactsView,
    url: Seq<char>,
)
    ensures
        saved_with(store, page, facts).session_id == store.session_id,
        saved_with(store, page, facts).has_page(page.url.href),
        store.has_page(url) ==> saved_with(store, page, facts).has_page(url),
{
    let after = saved_with(store, page, facts);
    let key = (store.session_id, page.url.href);
    let keys = page_keys(store.pages);
    let at = store.page_index(page.url.href);
    lemma_first_index_of_bounds(keys, key);
    if at < store.pages.len() {
        assert(page_keys(after.pages) =~= keys);
    } else {
        assert(page_keys(after.pages) =~= keys.push(key));
        lemma_first_index_of(page_keys(after.pages), key, at);
        if store.has_page(url) {
            let k = (store.session_id, url);
            lemma_first_index_of_bounds(keys, k);
            let a = first_index_of(keys, k);
            assert forall|j: int| 0 <= j < a implies page_keys(after.pages)[j] != k by {
                assert(page_keys(after.pages)[j] == keys[j]);
            }
            assert(page_keys(after.pages)[a] == keys[a]);
            lemma_first_index_of(page_keys(after.pages), k, a);
        }
    }
}

/// Among the first `n` entries, if one is eligible, one is the first of
/// the eligible ones with the highest priority.
pub proof fn lemma_best_below(store: FrontierStoreView, n: int) -> (b: int)
    requires
        0 <= n <= store.entries.len(),
        exists|i: int| 0 <= i < n && store.eligible(i),
    ensures
        0 <= b < n,
        store.eligible(b),
        forall|j: int|
            0 <= j < n && store.eligible(j) ==> (#[trigger] store.entries[j]).priority
                <= store.entries[b].priority,
        forall|j: int|
            0 <= j < b && store.eligible(j) ==> (#[trigger] store.entries[j]).priority
                < store.entries[b].priority,
    decreases n,
{
    if exists|i: int| 0 <= i < n - 1 && store.eligible(i) {
        let earlier = lemma_best_below(store, n - 1);
        if store.eligible(n - 1) && store.entries[n - 1].priority
            > store.entries[earlier].priority {
            n - 1
        } else {
            earlier
        }
    } else {
        let i = choose|i: int| 0 <= i < n && store.eligible(i);
        assert(i == n - 1);
        n - 1
    }
}

/// Where no entry is the next to hand out, no entry is eligible: the queue
/// of the session is worked off.
pub proof fn lemma_nothing_pending_without_next(store: FrontierStoreView)
    requires
        store.next_index() is None,
    ensures
        forall|i: int| !store.eligible(i),
{
    if exists|i: int| store.eligible(i) {
        let i = choose|i: int| store.eligible(i);
        let b = lemma_best_below(store, store.entries.len() as int);
        assert(store.is_next(b));
    }
}

/// Every link that a page gives names that page as its source.
pub proof fn lemma_out_links_source(page_id: usize, base: WebUrlView, anchors: Seq<AnchorView>)
    ensures
        forall|i: int|
            0 <= i < out_links(page_id, base, anchors).len() ==> (#[trigger] out_links(
                page_id,
                base,
                anchors,
            )[i]).source_page_id == page_id,
    decreases anchors.len(),
{
    if anchors.len() > 0 {
        lemma_out_links_source(page_id, base, anchors.drop_last());
    }
}

/// The frontier store of one crawl session.
#[derive(Debug)]
pub struct FrontierStore {
    session_id: i64,
    entries: Vec<FrontierEntry>,
    pages: Vec<SavedPage>,
    links: Vec<OutLink>,
    domains: Vec<DomainRecord>,
}

impl View for FrontierStore {
    type V = FrontierStoreView;

    closed spec fn view(&self) -> FrontierStoreView {
        FrontierStoreView {
            session_id: self.session_id,
            entries: self.entries.deep_view(),
            pages: self.pages.deep_view(),
            links: self.links.deep_view(),
            domains: self.domains.deep_view(),
        }
    }
}

/// The store of a session in which nothing has happened yet.
pub open spec fn empty_store(session_id: i64) -> FrontierStoreView {
    FrontierStoreView {
        session_id,
        entries: Seq::empty(),
        pages: Seq::empty(),
        links: Seq::empty(),
        domains: Seq::empty(),
    }
}

fn find_entry(entries: &Vec<FrontierEntry>, session_id: i64, url: &String) -> (r: usize)
    ensures
        r == first_index_of(entry_keys(entries.deep_view()), (session_id, url@)),
        r <= entries.len(),
{
    let ghost keys = entry_keys(entries.deep_view());
    let mut i: usize = 0;
    while i < entries.len()
        invariant
            i <= entries.len(),
            keys == entry_keys(entries.deep_view()),
            forall|j: int| 0 <= j < i ==> keys[j] != (session_id, url@),
        decreases entries.len() - i,
    {
        assert(keys[i as int] == (entries[i as int].session_id, entries[i as int].url@));
        if entries[i].session_id == session_id && entries[i].url == *url {
            proof {
                lemma_first_index_of(keys, (session_id, url@), i as int);
            }
            return i;
        }
        i += 1;
    }
    proof {
        lemma_first_index_of(keys, (session_id, url@), i as int);
    }
    i
}

fn find_page(pages: &Vec<SavedPage>, session_id: i64, url: &String) -> (r: usize)
    ensures
        r == first_index_of(page_keys(pages.deep_view()), (session_id, url@)),
        r <= pages.len(),
{
    let ghost keys = page_keys(pages.deep_view());
    let mut i: usize = 0;
    while i < pages.len()
        invariant
            i <= pages.len(),
            keys == page_keys(pages.deep_view()),
            forall|j: int| 0 <= j < i ==> keys[j] != (session_id, url@),
        decreases pages.len() - i,
    {
        assert(keys[i as int] == (pages[i as int].session_id, pages[i as int].url@));
        if pages[i].session_id == session_id && pages[i].url == *url {
            proof {
                lemma_first_index_of(keys, (session_id, url@), i as int);
            }
            return i;
        }
        i += 1;
    }
    proof {
        lemma_first_index_of(keys, (session_id, url@), i as int);
    }
    i
}

fn find_host(domains: &Vec<DomainRecord>, host: &String) -> (r: usize)
    ensures
        r == first_index_of(record_hosts(domains.deep_view()), host@),
        r <= domains.len(),
{
    let ghost keys = record_hosts(domains.deep_view());
    let mut i: usize = 0;
    while i < domains.len()
        invariant
            i <= domains.len(),
            keys == record_hosts(domains.deep_view()),
            forall|j: int| 0 <= j < i ==> keys[j] != host@,
        decreases domains.len() - i,
    {
        assert(keys[i as int] == domains[i as int].host@);
        if domains[i].host == *host {
            proof {
                lemma_first_index_of(keys, host@, i as int);
            }
            return i;
        }
        i += 1;
    }
    proof {
        lemma_first_index_of(keys, host@, i as int);
    }
    i
}

/// Builds the links that the anchors of a page give.
fn links_of(page_id: usize, base: &WebUrl, anchors: &Vec<Anchor>) -> (r: Vec<OutLink>)
    ensures
        r.deep_view() == out_links(page_id, base@, anchors.deep_view()),
{
    let ghost all = anchors.deep_view();
    let mut r: Vec<OutLink> = Vec::new();
    let mut i: usize = 0;
    assert(all.take(0) =~= Seq::empty());
    assert(r.deep_view() =~= Seq::empty());
    while i < anchors.len()
        invariant
            i <= anchors.len(),
            all == anchors.deep_view(),
            r.deep_view() == out_links(page_id, base@, all.take(i as int)),
        decreases anchors.len() - i,
    {
        let a = &anchors[i];
        let ghost before = r.deep_view();
        proof {
            assert(all.take(i + 1).drop_last() == all.take(i as int));
            assert(all.take(i + 1).last() == a@);
        }
        if !a.href.as_str().is_empty() {
            match classify_link(base, a.href.as_str()) {
                Some((class, target)) => {
                    let text = shorten_text(a.text.as_str());
                    let link_text = if text.as_str().is_empty() {
                        None
                    } else {
                        Some(text)
                    };
                    let link = OutLink {
                        source_page_id: page_id,
                        target_url: target,
                        link_text,
                        classification: class,
                    };
                    r.push(link);
                    assert(r.deep_view() =~= before.push(link@));
                },
                None => {},
            }
        }
        i += 1;
    }
    assert(all.take(anchors.len() as int) == all);
    r
}

impl PageFacts {
    /// Reads the title, the description, the fingerprint and the anchors
    /// out of a page body.
    pub fn of(html: &str) -> (facts: PageFacts)
        ensures
            facts@ == facts_of(html@),
    {
        PageFacts {
            title: title(html),
            description: description(html),
            content_hash: content_hash(html),
            anchors: select_anchors(html),
        }
    }
}

fn with_entry_status(e: &FrontierEntry, status: EntryStatus) -> (r: FrontierEntry)
    ensures
        r@ == (FrontierEntryView { status, ..e@ }),
{
    FrontierEntry {
        session_id: e.session_id,
        url: e.url.clone(),
        priority: e.priority,
        retry_count: e.retry_count,
        status,
    }
}

impl FrontierStore {
    #[verifier::type_invariant]
    closed spec fn inv(&self) -> bool {
        self@.well_formed()
    }

    /// The store of a new session.
    pub fn new(session_id: i64) -> (store: FrontierStore)
        ensures
            store@ == empty_store(session_id),
            store@.well_formed(),
    {
        let entries: Vec<FrontierEntry> = Vec::new();
        let pages: Vec<SavedPage> = Vec::new();
        let links: Vec<OutLink> = Vec::new();
        let domains: Vec<DomainRecord> = Vec::new();
        assert(entries.deep_view() =~= Seq::empty());
        assert(pages.deep_view() =~= Seq::empty());
        assert(links.deep_view() =~= Seq::empty());
        assert(domains.deep_view() =~= Seq::empty());
        FrontierStore { session_id, entries, pages, links, domains }
    }

    /// Shows that the store is well formed, as every store is.
    pub fn well_formed(&self)
        ensures
            self@.well_formed(),
    {
        proof {
            use_type_invariant(self);
        }
    }

    /// The session that the store works for.
    pub fn session_id(&self) -> (id: i64)
        ensures
            id == self@.session_id,
    {
        self.session_id
    }

    /// The queue entries, in the order in which they came.
    pub fn entries(&self) -> (r: &Vec<FrontierEntry>)
        ensures
            r.deep_view() == self@.entries,
    {
        &self.entries
    }

    /// The saved pages, in the order in which they were first saved.
    pub fn pages(&self) -> (r: &Vec<SavedPage>)
        ensures
            r.deep_view() == self@.pages,
    {
        &self.pages
    }

    /// The links found on saved pages.
    pub fn links(&self) -> (r: &Vec<OutLink>)
        ensures
            r.deep_view() == self@.links,
    {
        &self.links
    }

    /// The host records.
    pub fn domains(&self) -> (r: &Vec<DomainRecord>)
        ensures
            r.deep_view() == self@.domains,
    {
        &self.domains
    }

    /// Takes the queue entries out for a change; the store is left without
    /// entries until they are put back.
    fn take_entries(&mut self) -> (r: Vec<FrontierEntry>)
        ensures
            r.deep_view() == old(self)@.entries,
            final(self)@ == (FrontierStoreView { entries: Seq::empty(), ..old(self)@ }),
            old(self)@.well_formed(),
    {
        proof {
            use_type_invariant(&*self);
        }
        let mut entries: Vec<FrontierEntry> = Vec::new();
        assert(entries.deep_view() =~= Seq::empty());
        std::mem::swap(&mut self.entries, &mut entries);
        entries
    }

    /// Takes the host records out for a change.
    fn take_domains(&mut self) -> (r: Vec<DomainRecord>)
        ensures
            r.deep_view() == old(self)@.domains,
            final(self)@ == (FrontierStoreView { domains: Seq::empty(), ..old(self)@ }),
            old(self)@.well_formed(),
    {
        proof {
            use_type_invariant(&*self);
        }
        let mut domains: Vec<DomainRecord> = Vec::new();
        assert(domains.deep_view() =~= Seq::empty());
        std::mem::swap(&mut self.domains, &mut domains);
        domains
    }

    /// Queues each URL as a pending entry unless the session has an entry
    /// for it already, and counts both kinds.
    pub fn add_to_queue(&mut self, urls: &Vec<String>) -> (counts: QueueCounts)
        ensures
            final(self)@ == enqueued(old(self)@, urls.deep_view()),
            final(self)@.well_formed(),
            counts.added == final(self)@.entries.len() - old(self)@.entries.len(),
            counts.added + counts.skipped == urls.len(),
    {
        let ghost start = self@;
        let ghost all = urls.deep_view();
        let session_id = self.session_id;
        let mut entries = self.take_entries();
        let mut added: usize = 0;
        let mut skipped: usize = 0;
        let mut i: usize = 0;
        assert(all.take(0) =~= Seq::empty());
        while i < urls.len()
            invariant
                i <= urls.len(),
                all == urls.deep_view(),
                start.well_formed(),
                session_id == start.session_id,
                entries.deep_view() == enqueued(start, all.take(i as int)).entries,
                added == entries.len() - start.entries.len(),
                added + skipped == i,
            decreases urls.len() - i,
        {
            let ghost before = enqueued(start, all.take(i as int));
            proof {
                assert(all.take(i + 1).drop_last() == all.take(i as int));
                assert(all.take(i + 1).last() == urls[i as int]@);
                lemma_enqueued(start, all.take(i as int));
                lemma_enqueued(start, all.take(i + 1));
            }
            let at = find_entry(&entries, session_id, &urls[i]);
            if at < entries.len() {
                skipped += 1;
            } else {
                let ghost held = entries.deep_view();
                entries.push(
                    FrontierEntry {
                        session_id,
                        url: urls[i].clone(),
                        priority: 0,
                        retry_count: 0,
                        status: EntryStatus::Pending,
                    },
                );
                assert(entries.deep_view() =~= held.push(pending_entry(session_id, urls[i as int]@)));
                added += 1;
            }
            i += 1;
        }
        proof {
            assert(all.take(urls.len() as int) == all);
            lemma_enqueued(start, all);
        }
        self.entries = entries;
        QueueCounts { added, skipped }
    }

    /// Hands out the pending entry with the highest priority, the earliest
    /// of them, and marks it as being processed.
    pub fn next_queue(&mut self) -> (r: Option<String>)
        ensures
            final(self)@.well_formed(),
            match old(self)@.next_index() {
                Some(i) => {
                    &&& old(self)@.is_next(i)
                    &&& r.is_some()
                    &&& r.unwrap()@ == old(self)@.entries[i].url
                    &&& final(self)@ == old(self)@.with_status(i, EntryStatus::Processing)
                    &&& final(self)@.entries[i].status == EntryStatus::Processing
                    &&& final(self)@.pending_count() + 1 == old(self)@.pending_count()
                },
                None => {
                    &&& r.is_none()
                    &&& forall|i: int| !old(self)@.eligible(i)
                    &&& final(self)@ == old(self)@
                },
            },
    {
        let ghost view = self@;
        let session_id = self.session_id;
        let mut entries = self.take_entries();
        let mut best: Option<usize> = None;
        let mut i: usize = 0;
        while i < entries.len()
            invariant
                i <= entries.len(),
                view.entries == entries.deep_view(),
                view.session_id == session_id,
                match best {
                    Some(b) => {
                        &&& b < i
                        &&& view.eligible(b as int)
                        &&& forall|j: int|
                            view.eligible(j) && j < i ==> (#[trigger] view.entries[j]).priority
                                <= view.entries[b as int].priority
                        &&& forall|j: int|
                            view.eligible(j) && j < b ==> (#[trigger] view.entries[j]).priority
                                < view.entries[b as int].priority
                    },
                    None => forall|j: int| 0 <= j < i ==> !view.eligible(j),
                },
            decreases entries.len() - i,
        {
            let e = &entries[i];
            assert(view.entries[i as int] == e@);
            if e.session_id == session_id && e.status == EntryStatus::Pending {
                match best {
                    Some(b) => {
                        assert(view.entries[b as int] == entries[b as int]@);
                        if e.priority > entries[b].priority {
                            best = Some(i);
                        }
                    },
                    None => {
                        best = Some(i);
                    },
                }
            }
            i += 1;
        }
        match best {
            Some(b) => {
                assert(view.entries[b as int] == entries[b as int]@);
                let url = entries[b].url.clone();
                let taken = with_entry_status(&entries[b], EntryStatus::Processing);
                entries.set(b, taken);
                proof {
                    assert(view.is_next(b as int));
                    assert(entries.deep_view() =~= view.with_status(
                        b as int,
                        EntryStatus::Processing,
                    ).entries);
                    lemma_handed_out_once(view, b as int);
                    lemma_next_unique(view, b as int, view.next_index()->0);
                    lemma_pending_after_take(view.entries, view.session_id, b as int);
                }
                self.entries = entries;
                Some(url)
            },
            None => {
                assert forall|i: int| !view.is_next(i) by {
                    assert(!view.eligible(i));
                }
                self.entries = entries;
                None
            },
        }
    }

    /// Tells whether a page is saved for `url`.
    pub fn has_seen(&self, url: &str) -> (r: bool)
        ensures
            r == self@.has_page(url@),
    {
        let key = url.to_owned();
        find_page(&self.pages, self.session_id, &key) < self.pages.len()
    }

    /// Marks the entry for `url` as completed. An entry that is being
    /// processed becomes completed; a completed entry stays so; a URL
    /// without entry is passed over; an entry that is pending or failed is
    /// refused and stays as it is.
    pub fn mark_as_visited(&mut self, url: &str) -> (r: Result<(), StoreError>)
        ensures
            final(self)@.well_formed(),
            match old(self)@.visited(url@) {
                Ok(store) => r.is_ok() && final(self)@ == store,
                Err(error) => r == Err::<(), StoreError>(error) && final(self)@ == old(self)@,
            },
    {
        let ghost view = self@;
        let key = url.to_owned();
        let session_id = self.session_id;
        let mut entries = self.take_entries();
        let at = find_entry(&entries, session_id, &key);
        if at >= entries.len() {
            self.entries = entries;
            return Ok(());
        }
        assert(view.entries[at as int] == entries[at as int]@);
        match entries[at].status {
            EntryStatus::Processing => {
                let done = with_entry_status(&entries[at], EntryStatus::Completed);
                entries.set(at, done);
                proof {
                    let after = view.with_status(at as int, EntryStatus::Completed);
                    assert(entries.deep_view() =~= after.entries);
                    assert(entry_keys(after.entries) =~= entry_keys(view.entries));
                }
                self.entries = entries;
                Ok(())
            },
            EntryStatus::Completed => {
                self.entries = entries;
                Ok(())
            },
            _ => {
                self.entries = entries;
                Err(StoreError::InvalidTransition)
            },
        }
    }

    /// Makes every entry of the session that was being processed pending
    /// again, and says how many there were. This is what a session does
    /// when it is taken up again.
    pub fn recover(&mut self) -> (count: usize)
        ensures
            final(self)@ == recovered(old(self)@),
            final(self)@.well_formed(),
            forall|i: int|
                0 <= i < final(self)@.entries.len() && final(self)@.entries[i].session_id == final(self)@.session_id ==> (#[trigger] final(self)@.entries[i]).status
                    != EntryStatus::Processing,
    {
        let ghost view = self@;
        let ghost goal = recovered(view);
        let session_id = self.session_id;
        let mut entries = self.take_entries();
        let mut count: usize = 0;
        let mut i: usize = 0;
        while i < entries.len()
            invariant
                i <= entries.len(),
                count <= i,
                goal == recovered(view),
                session_id == view.session_id,
                entries.len() == view.entries.len(),
                forall|j: int| 0 <= j < i ==> (#[trigger] entries.deep_view()[j]) == goal.entries[j],
                forall|j: int|
                    i <= j < view.entries.len() ==> (#[trigger] entries.deep_view()[j])
                        == view.entries[j],
            decreases entries.len() - i,
        {
            assert(entries.deep_view()[i as int] == entries[i as int]@);
            if entries[i].session_id == session_id && entries[i].status == EntryStatus::Processing {
                let again = with_entry_status(&entries[i], EntryStatus::Pending);
                let ghost before = entries.deep_view();
                entries.set(i, again);
                assert(entries.deep_view() =~= before.update(i as int, again@));
                count += 1;
            }
            i += 1;
        }
        proof {
            assert(entries.deep_view() =~= goal.entries);
            lemma_recovered(view);
        }
        self.entries = entries;
        count
    }

    /// Saves a fetched page with what was read out of its body, in place
    /// of the page that the URL had if it had one, and adds the links that
    /// the anchors give.
    pub fn save_with(&mut self, page: &FetchedPage, facts: PageFacts)
        ensures
            final(self)@ == saved_with(old(self)@, page@, facts@),
            final(self)@.well_formed(),
    {
        proof {
            use_type_invariant(&*self);
        }
        let ghost view = self@;
        let content_length = match &page.content_length {
            Some(text) => parse_integer(&to_chars(text.as_str())),
            None => None,
        };
        let at = find_page(&self.pages, self.session_id, &page.url.href);
        let mut added = links_of(at, &page.url, &facts.anchors);
        let ghost added_view = added.deep_view();
        let record = SavedPage {
            session_id: self.session_id,
            url: page.url.href.clone(),
            final_url: page.final_url.href.clone(),
            status_code: page.status_code,
            content_type: clone_text(&page.content_type),
            content_length,
            content_hash: facts.content_hash,
            html_content: page.html_content.clone(),
            title: facts.title,
            description: facts.description,
            fetched_at: page.timestamp_ms,
        };
        assert(record@ == page_record(view.session_id, page@, facts@));
        // Pages and links change together: both are taken out, changed, and
        // put back, pages first.
        let mut links: Vec<OutLink> = Vec::new();
        assert(links.deep_view() =~= Seq::empty());
        std::mem::swap(&mut self.links, &mut links);
        let mut pages: Vec<SavedPage> = Vec::new();
        assert(pages.deep_view() =~= Seq::empty());
        std::mem::swap(&mut self.pages, &mut pages);
        if at < pages.len() {
            pages.set(at, record);
            assert(pages.deep_view() =~= view.pages.update(at as int, record@));
        } else {
            pages.push(record);
            assert(pages.deep_view() =~= view.pages.push(record@));
        }
        links.append(&mut added);
        proof {
            assert(links.deep_view() =~= view.links + added_view);
            lemma_saved(view, page@, facts@);
        }
        self.pages = pages;
        self.links = links;
    }

    /// Saves a fetched page with its title, description and fingerprint,
    /// in place of the page that the URL had if it had one, and adds the
    /// links found on it.
    pub fn save(&mut self, page: &FetchedPage)
        ensures
            final(self)@ == saved(old(self)@, page@),
            final(self)@.well_formed(),
    {
        let facts = PageFacts::of(page.html_content.as_str());
        self.save_with(page, facts);
    }

    /// Tells whether the operator lets the host of `url` be crawled. A host
    /// that is met for the first time gets a record that allows it.
    pub fn check_robot_policy(&mut self, url: &WebUrl) -> (r: Result<bool, StoreError>)
        ensures
            final(self)@.well_formed(),
            match url@.host {
                None => r == Err::<bool, StoreError>(StoreError::NoHost) && final(self)@ == old(self)@,
                Some(host) => r == Ok::<bool, StoreError>(old(self)@.policy_checked(host).1)
                    && final(self)@ == old(self)@.policy_checked(host).0,
            },
    {
        proof {
            use_type_invariant(&*self);
        }
        let ghost view = self@;
        match &url.host {
            None => Err(StoreError::NoHost),
            Some(host) => {
                let mut domains = self.take_domains();
                let at = find_host(&domains, host);
                if at < domains.len() {
                    assert(view.domains[at as int] == domains[at as int]@);
                    let allowed = domains[at].allow_crawl;
                    self.domains = domains;
                    Ok(allowed)
                } else {
                    domains.push(
                        DomainRecord {
                            host: host.clone(),
                            allow_crawl: true,
                            robots_text: None,
                            robots_fetched_at: None,
                        },
                    );
                    proof {
                        assert(domains.deep_view() =~= view.domains.push(default_record(host@)));
                        lemma_push_distinct(record_hosts(view.domains), host@);
                        assert(record_hosts(domains.deep_view()) =~= record_hosts(
                            view.domains,
                        ).push(host@));
                    }
                    self.domains = domains;
                    Ok(true)
                }
            },
        }
    }

    /// Keeps the robots.txt file of a host as it was fetched at `now_ms`.
    /// A host without record gets one that allows it.
    pub fn set_robots_text(&mut self, host: &str, text: Option<String>, now_ms: u64)
        ensures
            final(self)@.well_formed(),
            final(self)@ == old(self)@.with_robots_text(host@, text.deep_view(), now_ms),
    {
        let ghost view = self@;
        let key = host.to_owned();
        let mut domains = self.take_domains();
        let at = find_host(&domains, &key);
        if at < domains.len() {
            assert(view.domains[at as int] == domains[at as int]@);
            let record = DomainRecord {
                host: key,
                allow_crawl: domains[at].allow_crawl,
                robots_text: text,
                robots_fetched_at: Some(now_ms),
            };
            domains.set(at, record);
            proof {
                lemma_first_index_of_bounds(record_hosts(view.domains), host@);
                assert(domains.deep_view() =~= view.domains.update(at as int, record@));
                assert(record_hosts(domains.deep_view()) =~= record_hosts(view.domains));
            }
        } else {
            let record = DomainRecord {
                host: key,
                allow_crawl: true,
                robots_text: text,
                robots_fetched_at: Some(now_ms),
            };
            domains.push(record);
            proof {
                assert(domains.deep_view() =~= view.domains.push(record@));
                lemma_push_distinct(record_hosts(view.domains), host@);
                assert(record_hosts(domains.deep_view()) =~= record_hosts(view.domains).push(
                    host@,
                ));
            }
        }
        self.domains = domains;
    }

    /// The robots.txt file that is kept for a host.
    pub fn robots_text(&self, host: &str) -> (r: Option<String>)
        ensures
            r.deep_view() == self@.robots_text(host@),
    {
        let key = host.to_owned();
        let at = find_host(&self.domains, &key);
        if at < self.domains.len() {
            assert(self@.domains[at as int] == self.domains[at as int]@);
            clone_text(&self.domains[at].robots_text)
        } else {
            None
        }
    }

    /// Takes in a queue entry as it was kept by an earlier run, unless the
    /// store has an entry for its session and URL already, and tells
    /// whether it did.
    pub fn restore_entry(&mut self, entry: FrontierEntry) -> (r: bool)
        ensures
            final(self)@.well_formed(),
            r == (first_index_of(
                entry_keys(old(self)@.entries),
                (entry.session_id, entry.url@),
            ) >= old(self)@.entries.len()),
            final(self)@ == if r {
                FrontierStoreView { entries: old(self)@.entries.push(entry@), ..old(self)@ }
            } else {
                old(self)@
            },
    {
        let ghost view = self@;
        let mut entries = self.take_entries();
        let at = find_entry(&entries, entry.session_id, &entry.url);
        if at < entries.len() {
            self.entries = entries;
            false
        } else {
            entries.push(entry);
            proof {
                assert(entries.deep_view() =~= view.entries.push(entry@));
                lemma_push_distinct(entry_keys(view.entries), (entry.session_id, entry.url@));
                assert(entry_keys(entries.deep_view()) =~= entry_keys(view.entries).push(
                    (entry.session_id, entry.url@),
                ));
            }
            self.entries = entries;
            true
        }
    }

    /// Takes in a page as it was kept by an earlier run, unless the store
    /// has a page for its session and URL already, and tells whether it did.
    pub fn restore_page(&mut self, page: SavedPage) -> (r: bool)
        ensures
            final(self)@.well_formed(),
            r == (first_index_of(page_keys(old(self)@.pages), (page.session_id, page.url@)) >= old(self)@.pages.len()),
            final(self)@ == if r {
                FrontierStoreView { pages: old(self)@.pages.push(page@), ..old(self)@ }
            } else {
                old(self)@
            },
    {
        proof {
            use_type_invariant(&*self);
        }
        let ghost view = self@;
        let at = find_page(&self.pages, page.session_id, &page.url);
        if at < self.pages.len() {
            false
        } else {
            // Adding a page leaves every link on its page: the pages can
            // change while the links stay.
            let mut links: Vec<OutLink> = Vec::new();
            assert(links.deep_view() =~= Seq::empty());
            std::mem::swap(&mut self.links, &mut links);
            let mut pages: Vec<SavedPage> = Vec::new();
            assert(pages.deep_view() =~= Seq::empty());
            std::mem::swap(&mut self.pages, &mut pages);
            pages.push(page);
            proof {
                assert(pages.deep_view() =~= view.pages.push(page@));
                lemma_push_distinct(page_keys(view.pages), (page.session_id, page.url@));
                assert(page_keys(pages.deep_view()) =~= page_keys(view.pages).push(
                    (page.session_id, page.url@),
                ));
            }
            self.pages = pages;
            self.links = links;
            true
        }
    }

    /// Takes in a host record as it was kept by an earlier run, unless the
    /// store has a record for the host already, and tells whether it did.
    pub fn restore_domain(&mut self, record: DomainRecord) -> (r: bool)
        ensures
            final(self)@.well_formed(),
            r == (old(self)@.host_index(record.host@) >= old(self)@.domains.len()),
            final(self)@ == if r {
                FrontierStoreView { domains: old(self)@.domains.push(record@), ..old(self)@ }
            } else {
                old(self)@
            },
    {
        let ghost view = self@;
        let mut domains = self.take_domains();
        let at = find_host(&domains, &record.host);
        if at < domains.len() {
            self.domains = domains;
            false
        } else {
            domains.push(record);
            proof {
                assert(domains.deep_view() =~= view.domains.push(record@));
                lemma_push_distinct(record_hosts(view.domains), record.host@);
                assert(record_hosts(domains.deep_view()) =~= record_hosts(view.domains).push(
                    record.host@,
                ));
            }
            self.domains = domains;
            true
        }
    }
}

} // verus!
