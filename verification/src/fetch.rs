//! The decisions of one page fetch: bounded redirects, retry with
//! exponential backoff, and the handling of each HTTP status. The caller
//! performs the requests and sleeps; this module says what to do next.

use vstd::prelude::*;
use crate::text::{contains, contains_text, to_chars};
use crate::web_url::{clone_text, url_resolve, WebUrl, WebUrlView};

verus! {

/// How many redirects one fetch follows.
pub const MAX_REDIRECTS: u32 = 5;

/// How many times one URL is tried again after a server or network error.
pub const MAX_RETRIES: u32 = 3;

/// The pause before the first retry, in milliseconds.
pub const INITIAL_BACKOFF_MS: u64 = 500;

/// Why a fetch failed.
#[derive(Debug)]
pub enum FetchError {
    /// A redirect named a target that is not a URL.
    InvalidUrl,
    /// No response arrived, and the retries are used up.
    NetworkError,
    /// The server redirected more often than a fetch follows.
    TooManyRedirects,
    /// The response does not declare an HTML body.
    NotHtml,
    /// The response has a status that is not retried.
    HttpError { status: u16, reason: String },
    /// The server kept failing until the retries were used up.
    ServerError { status: u16 },
}

/// The mathematical value of a [`FetchError`].
pub enum FetchErrorView {
    InvalidUrl,
    NetworkError,
    TooManyRedirects,
    NotHtml,
    HttpError { status: u16, reason: Seq<char> },
    ServerError { status: u16 },
}

impl View for FetchError {
    type V = FetchErrorView;

    open spec fn view(&self) -> FetchErrorView {
        match self {
            FetchError::InvalidUrl => FetchErrorView::InvalidUrl,
            FetchError::NetworkError => FetchErrorView::NetworkError,
            FetchError::TooManyRedirects => FetchErrorView::TooManyRedirects,
            FetchError::NotHtml => FetchErrorView::NotHtml,
            FetchError::HttpError { status, reason } => FetchErrorView::HttpError {
                status: *status,
                reason: reason@,
            },
            FetchError::ServerError { status } => FetchErrorView::ServerError { status: *status },
        }
    }
}

/// What the caller reports of a response before reading its body.
#[derive(Debug)]
pub struct ResponseHead {
    /// The status code.
    pub status: u16,
    /// The reason phrase that goes with the status.
    pub reason: String,
    /// The `Content-Type` header, if present.
    pub content_type: Option<String>,
    /// The `Content-Length` header, if present.
    pub content_length: Option<String>,
    /// The `Location` header, if present.
    pub location: Option<String>,
}

/// The mathematical value of a [`ResponseHead`].
pub struct ResponseHeadView {
    pub status: u16,
    pub reason: Seq<char>,
    pub content_type: Option<Seq<char>>,
    pub content_length: Option<Seq<char>>,
    pub location: Option<Seq<char>>,
}

impl View for ResponseHead {
    type V = ResponseHeadView;

    open spec fn view(&self) -> ResponseHeadView {
        ResponseHeadView {
            status: self.status,
            reason: self.reason@,
            content_type: self.content_type.deep_view(),
            content_length: self.content_length.deep_view(),
            location: self.location.deep_view(),
        }
    }
}

/// The state of a fetch between two requests.
#[derive(Debug)]
pub struct Fetcher {
    /// The URL that the fetch was started for.
    pub url: WebUrl,
    /// The URL to request next.
    pub current: WebUrl,
    /// How many more redirects will be followed.
    pub redirects_remaining: u32,
    /// How many more times `current` will be tried again.
    pub retries_remaining: u32,
    /// The pause before the next retry, in milliseconds.
    pub backoff_ms: u64,
    /// When the fetch began, in milliseconds of the caller's clock.
    pub started_ms: u64,
}

/// The mathematical value of a [`Fetcher`].
pub struct FetcherView {
    pub url: WebUrlView,
    pub current: WebUrlView,
    pub redirects_remaining: u32,
    pub retries_remaining: u32,
    pub backoff_ms: u64,
    pub started_ms: u64,
}

impl View for Fetcher {
    type V = FetcherView;

    open spec fn view(&self) -> FetcherView {
        FetcherView {
            url: self.url@,
            current: self.current@,
            redirects_remaining: self.redirects_remaining,
            retries_remaining: self.retries_remaining,
            backoff_ms: self.backoff_ms,
            started_ms: self.started_ms,
        }
    }
}

/// A response that was accepted as an HTML page and whose body is still to
/// be read.
#[derive(Debug)]
pub struct PendingPage {
    pub url: WebUrl,
    pub final_url: WebUrl,
    pub status_code: u16,
    pub content_type: String,
    pub content_length: Option<String>,
    pub started_ms: u64,
}

/// The mathematical value of a [`PendingPage`].
pub struct PendingPageView {
    pub url: WebUrlView,
    pub final_url: WebUrlView,
    pub status_code: u16,
    pub content_type: Seq<char>,
    pub content_length: Option<Seq<char>>,
    pub started_ms: u64,
}

impl View for PendingPage {
    type V = PendingPageView;

    open spec fn view(&self) -> PendingPageView {
        PendingPageView {
            url: self.url@,
            final_url: self.final_url@,
            status_code: self.status_code,
            content_type: self.content_type@,
            content_length: self.content_length.deep_view(),
            started_ms: self.started_ms,
        }
    }
}

/// The result of a successful fetch.
#[derive(Debug)]
pub struct FetchedPage {
    /// The URL that was asked for.
    pub url: WebUrl,
    /// The URL that answered, after redirects.
    pub final_url: WebUrl,
    pub status_code: u16,
    pub content_type: Option<String>,
    /// The `Content-Length` header as the server sent it.
    pub content_length: Option<String>,
    pub html_content: String,
    /// How long the fetch took, in milliseconds.
    pub fetched_duration_ms: u128,
    /// When the body had arrived, in milliseconds of the caller's clock.
    pub timestamp_ms: u64,
}

/// The mathematical value of a [`FetchedPage`].
pub struct FetchedPageView {
    pub url: WebUrlView,
    pub final_url: WebUrlView,
    pub status_code: u16,
    pub content_type: Option<Seq<char>>,
    pub content_length: Option<Seq<char>>,
    pub html_content: Seq<char>,
    pub fetched_duration_ms: u128,
    pub timestamp_ms: u64,
}

impl View for FetchedPage {
    type V = FetchedPageView;

    open spec fn view(&self) -> FetchedPageView {
        FetchedPageView {
            url: self.url@,
            final_url: self.final_url@,
            status_code: self.status_code,
            content_type: self.content_type.deep_view(),
            content_length: self.content_length.deep_view(),
            html_content: self.html_content@,
            fetched_duration_ms: self.fetched_duration_ms,
            timestamp_ms: self.timestamp_ms,
        }
    }
}

impl Clone for FetchedPage {
    fn clone(&self) -> (r: Self)
        ensures
            r == *self,
    {
        FetchedPage {
            url: self.url.clone(),
            final_url: self.final_url.clone(),
            status_code: self.status_code,
            content_type: clone_text(&self.content_type),
            content_length: clone_text(&self.content_length),
            html_content: self.html_content.clone(),
            fetched_duration_ms: self.fetched_duration_ms,
            timestamp_ms: self.timestamp_ms,
        }
    }
}

/// What the caller does next.
#[derive(Debug)]
pub enum FetchStep {
    /// Sleep for `delay_ms` milliseconds, request `fetcher.current`, and
    /// report the outcome to `fetcher`.
    Request { fetcher: Fetcher, delay_ms: u64 },
    /// Read the body of the response and hand it to `page`.
    ReadBody { page: PendingPage },
    /// Give up.
    Fail { error: FetchError },
}

/// The mathematical value of a [`FetchStep`].
pub enum FetchStepView {
    Request { fetcher: FetcherView, delay_ms: u64 },
    ReadBody { page: PendingPageView },
    Fail { error: FetchErrorView },
}

impl View for FetchStep {
    type V = FetchStepView;

    open spec fn view(&self) -> FetchStepView {
        match self {
            FetchStep::Request { fetcher, delay_ms } => FetchStepView::Request {
                fetcher: fetcher@,
                delay_ms: *delay_ms,
            },
            FetchStep::ReadBody { page } => FetchStepView::ReadBody { page: page@ },
            FetchStep::Fail { error } => FetchStepView::Fail { error: error@ },
        }
    }
}

/// Twice `ms`, or the largest value if that does not fit.
pub open spec fn doubled(ms: u64) -> u64 {
    if ms <= u64::MAX / 2 {
        (ms * 2) as u64
    } else {
        u64::MAX
    }
}

/// The state in which a fetch of `url` begins at time `now_ms`.
pub open spec fn initial_fetcher(url: WebUrlView, now_ms: u64) -> FetcherView {
    FetcherView {
        url,
        current: url,
        redirects_remaining: MAX_REDIRECTS,
        retries_remaining: MAX_RETRIES,
        backoff_ms: INITIAL_BACKOFF_MS,
        started_ms: now_ms,
    }
}

/// The step after a failed attempt that may be retried: try again after the
/// current backoff, which then doubles, or give up with `exhausted` if no
/// retry is left.
pub open spec fn retry_step(f: FetcherView, exhausted: FetchErrorView) -> FetchStepView {
    if f.retries_remaining > 0 {
        FetchStepView::Request {
            fetcher: FetcherView {
                retries_remaining: (f.retries_remaining - 1) as u32,
                backoff_ms: doubled(f.backoff_ms),
                ..f
            },
            delay_ms: f.backoff_ms,
        }
    } else {
        FetchStepView::Fail { error: exhausted }
    }
}

/// The step after a redirect whose `Location` header, if there is one,
/// resolves to `target`: the fetch fails if no redirect is left, if the
/// header is missing, or if it names no URL; else it goes on at the
/// target with one redirect less and all retries.
pub open spec fn redirect_to(
    f: FetcherView,
    head: ResponseHeadView,
    target: Option<WebUrlView>,
) -> FetchStepView {
    if f.redirects_remaining == 0 {
        FetchStepView::Fail { error: FetchErrorView::TooManyRedirects }
    } else if head.location is None {
        FetchStepView::Fail {
            error: FetchErrorView::HttpError { status: head.status, reason: head.reason },
        }
    } else {
        match target {
            None => FetchStepView::Fail { error: FetchErrorView::InvalidUrl },
            Some(target) => FetchStepView::Request {
                fetcher: FetcherView {
                    current: target,
                    redirects_remaining: (f.redirects_remaining - 1) as u32,
                    retries_remaining: MAX_RETRIES,
                    ..f
                },
                delay_ms: 0,
            },
        }
    }
}

/// The step after a redirect: the `Location` header is taken as an absolute
/// URL, or else as relative to the URL that was asked.
pub open spec fn redirect_step(f: FetcherView, head: ResponseHeadView) -> FetchStepView {
    redirect_to(
        f,
        head,
        match head.location {
            Some(location) => url_resolve(f.current.href, location),
            None => None,
        },
    )
}

/// The step after a `200 OK`.
pub open spec fn accept_step(f: FetcherView, head: ResponseHeadView) -> FetchStepView {
    match head.content_type {
        Some(content_type) => if contains_text(content_type, "text/html"@) {
            FetchStepView::ReadBody {
                page: PendingPageView {
                    url: f.url,
                    final_url: f.current,
                    status_code: head.status,
                    content_type,
                    content_length: head.content_length,
                    started_ms: f.started_ms,
                },
            }
        } else {
            FetchStepView::Fail { error: FetchErrorView::NotHtml }
        },
        None => FetchStepView::Fail { error: FetchErrorView::NotHtml },
    }
}

/// The step after a response with the given head.
pub open spec fn response_step(f: FetcherView, head: ResponseHeadView) -> FetchStepView {
    if head.status == 200 {
        accept_step(f, head)
    } else if head.status == 301 || head.status == 302 {
        redirect_step(f, head)
    } else if head.status == 500 || head.status == 503 {
        retry_step(f, FetchErrorView::ServerError { status: head.status })
    } else {
        FetchStepView::Fail {
            error: FetchErrorView::HttpError { status: head.status, reason: head.reason },
        }
    }
}

/// The number of requests that a fetch in state `f` can still lead to, at
/// most, after the one that is under way.
pub open spec fn fetch_budget(f: FetcherView) -> int {
    f.redirects_remaining * (MAX_RETRIES + 1) + f.retries_remaining
}

/// Twice `ms`, or the largest value if that does not fit.
pub fn double_backoff(ms: u64) -> (r: u64)
    ensures
        r == doubled(ms),
{
    if ms <= u64::MAX / 2 {
        ms * 2
    } else {
        u64::MAX
    }
}

impl Fetcher {
    /// Begins a fetch of `url` at time `now_ms`. The caller requests
    /// `current` and reports what came back.
    pub fn new(url: WebUrl, now_ms: u64) -> (f: Fetcher)
        ensures
            f@ == initial_fetcher(url@, now_ms),
    {
        let current = url.clone();
        Fetcher {
            url,
            current,
            redirects_remaining: MAX_REDIRECTS,
            retries_remaining: MAX_RETRIES,
            backoff_ms: INITIAL_BACKOFF_MS,
            started_ms: now_ms,
        }
    }

    fn retry(self, exhausted: FetchError) -> (step: FetchStep)
        ensures
            step@ == retry_step(self@, exhausted@),
    {
        if self.retries_remaining > 0 {
            let delay_ms = self.backoff_ms;
            FetchStep::Request {
                fetcher: Fetcher {
                    url: self.url,
                    current: self.current,
                    redirects_remaining: self.redirects_remaining,
                    retries_remaining: self.retries_remaining - 1,
                    backoff_ms: double_backoff(self.backoff_ms),
                    started_ms: self.started_ms,
                },
                delay_ms,
            }
        } else {
            FetchStep::Fail { error: exhausted }
        }
    }

    /// Decides what follows a redirect whose `Location` header, if there
    /// is one, resolves to `target`.
    pub fn follow(self, head: ResponseHead, target: Option<WebUrl>) -> (step: FetchStep)
        ensures
            step@ == redirect_to(self@, head@, target.deep_view()),
    {
        if self.redirects_remaining == 0 {
            FetchStep::Fail { error: FetchError::TooManyRedirects }
        } else if head.location.is_none() {
            FetchStep::Fail {
                error: FetchError::HttpError { status: head.status, reason: head.reason },
            }
        } else {
            match target {
                None => FetchStep::Fail { error: FetchError::InvalidUrl },
                Some(target) => FetchStep::Request {
                    fetcher: Fetcher {
                        url: self.url,
                        current: target,
                        redirects_remaining: self.redirects_remaining - 1,
                        retries_remaining: MAX_RETRIES,
                        backoff_ms: self.backoff_ms,
                        started_ms: self.started_ms,
                    },
                    delay_ms: 0,
                },
            }
        }
    }

    fn redirect(self, head: ResponseHead) -> (step: FetchStep)
        ensures
            step@ == redirect_step(self@, head@),
    {
        let target = match &head.location {
            Some(location) => self.current.resolve(location.as_str()),
            None => None,
        };
        self.follow(head, target)
    }

    fn accept(self, head: ResponseHead) -> (step: FetchStep)
        ensures
            step@ == accept_step(self@, head@),
    {
        match head.content_type {
            Some(content_type) => {
                let wanted = to_chars("text/html");
                let given = to_chars(content_type.as_str());
                if contains(&given, &wanted) {
                    FetchStep::ReadBody {
                        page: PendingPage {
                            url: self.url,
                            final_url: self.current,
                            status_code: head.status,
                            content_type,
                            content_length: head.content_length,
                            started_ms: self.started_ms,
                        },
                    }
                } else {
                    FetchStep::Fail { error: FetchError::NotHtml }
                }
            },
            None => FetchStep::Fail { error: FetchError::NotHtml },
        }
    }

    /// Decides what follows a response.
    pub fn on_response(self, head: ResponseHead) -> (step: FetchStep)
        ensures
            step@ == response_step(self@, head@),
    {
        if head.status == 200 {
            self.accept(head)
        } else if head.status == 301 || head.status == 302 {
            self.redirect(head)
        } else if head.status == 500 || head.status == 503 {
            let status = head.status;
            self.retry(FetchError::ServerError { status })
        } else {
            FetchStep::Fail {
                error: FetchError::HttpError { status: head.status, reason: head.reason },
            }
        }
    }

    /// Decides what follows a request that brought no response.
    pub fn on_network_error(self) -> (step: FetchStep)
        ensures
            step@ == retry_step(self@, FetchErrorView::NetworkError),
    {
        self.retry(FetchError::NetworkError)
    }
}

impl PendingPage {
    /// Completes the page with the body that was read at time `now_ms`.
    pub fn finish(self, body: String, now_ms: u64) -> (page: FetchedPage)
        ensures
            page@ == (FetchedPageView {
                url: self@.url,
                final_url: self@.final_url,
                status_code: self.status_code,
                content_type: Some(self.content_type@),
                content_length: self.content_length.deep_view(),
                html_content: body@,
                fetched_duration_ms: if now_ms >= self.started_ms {
                    (now_ms - self.started_ms) as u128
                } else {
                    0
                },
                timestamp_ms: now_ms,
            }),
    {
        let elapsed: u64 = if now_ms >= self.started_ms {
            now_ms - self.started_ms
        } else {
            0
        };
        FetchedPage {
            url: self.url,
            final_url: self.final_url,
            status_code: self.status_code,
            content_type: Some(self.content_type),
            content_length: self.content_length,
            html_content: body,
            fetched_duration_ms: elapsed as u128,
            timestamp_ms: now_ms,
        }
    }
}

/// Every request that a fetch asks for leaves it with a smaller budget, so
/// a fetch that starts with at most `MAX_RETRIES` retries in hand ends
/// after finitely many requests.
pub proof fn lemma_fetch_progress(f: FetcherView, head: ResponseHeadView)
    requires
        f.retries_remaining <= MAX_RETRIES,
    ensures
        response_step(f, head) matches FetchStepView::Request { fetcher, .. } ==> {
            &&& fetcher.retries_remaining <= MAX_RETRIES
            &&& 0 <= fetch_budget(fetcher) < fetch_budget(f)
        },
        retry_step(f, FetchErrorView::NetworkError) matches FetchStepView::Request {
            fetcher,
            ..
        } ==> {
            &&& fetcher.retries_remaining <= MAX_RETRIES
            &&& 0 <= fetch_budget(fetcher) < fetch_budget(f)
        },
{
}

/// A redirect is followed only while redirects remain, and following it
/// uses one up: no fetch follows more than `MAX_REDIRECTS` of them.
pub proof fn lemma_redirects_bounded(f: FetcherView, head: ResponseHeadView)
    requires
        head.status == 301 || head.status == 302,
    ensures
        f.redirects_remaining == 0 ==> response_step(f, head) == (FetchStepView::Fail {
            error: FetchErrorView::TooManyRedirects,
        }),
        response_step(f, head) matches FetchStepView::Request { fetcher, .. } ==> 
            fetcher.redirects_remaining + 1 == f.redirects_remaining,
{
}

} // verus!
