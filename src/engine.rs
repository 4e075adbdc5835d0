use vstd::prelude::*;
use crate::message::{
    append_header, copy_headers, is_get_or_head, remove_headers, without_name, Header, HeaderView,
    HttpRequest, HttpResponse, RequestView, ResponseView,
};
use crate::warning::{
    append_warning, built_warning, must_revalidate, requires_revalidation,
    strip_informational_warnings, stripped_headers, warning_name, HTTP_DATE_LIMIT,
};

verus! {

/// How the cache takes part in a request.
#[derive(PartialEq, Eq, Structural, Debug, Clone, Copy)]
pub enum CacheMode {
    /// Standard HTTP caching.
    Default,
    /// Never read nor write the store.
    NoStore,
    /// Do not read the store, but refresh it.
    Reload,
    /// Always go to the origin before a stored response is used.
    NoCache,
    /// Serve what is stored, stale or not, without asking the origin.
    ForceCache,
    /// Never contact the origin.
    OnlyIfCached,
}

/// Whether the store is read at all for a request with this method in this mode.
pub open spec fn cacheable_request(req: RequestView, mode: CacheMode) -> bool {
    is_get_or_head(req.method) && mode != CacheMode::NoStore && mode != CacheMode::Reload
}

pub fn is_cacheable_request(req: &HttpRequest, mode: CacheMode) -> (r: bool)
    ensures
        r == cacheable_request(req@, mode),
{
    req.method.is_get_or_head() && mode != CacheMode::NoStore && mode != CacheMode::Reload
}

/// What happens to the store once the origin has answered.
#[derive(PartialEq, Eq, Structural, Debug, Clone, Copy)]
pub enum StoreAction {
    /// Keep the response under the request's key.
    Put,
    /// Drop whatever is stored under the request's key.
    Delete,
    /// Leave the store alone.
    Keep,
}

pub open spec fn store_action_for(mode: CacheMode, req: RequestView, status: u16) -> StoreAction {
    if mode != CacheMode::NoStore && is_get_or_head(req.method) && status == 200 {
        StoreAction::Put
    } else if !is_get_or_head(req.method) {
        StoreAction::Delete
    } else {
        StoreAction::Keep
    }
}

/// The store decision after a fetch from the origin: only a 200 to `GET` or `HEAD` is kept,
/// and any other method invalidates what is stored.
pub fn store_action(mode: CacheMode, req: &HttpRequest, status: u16) -> (r: StoreAction)
    ensures
        r == store_action_for(mode, req@, status),
{
    let get_or_head = req.method.is_get_or_head();
    if mode != CacheMode::NoStore && get_or_head && status == 200 {
        StoreAction::Put
    } else if !get_or_head {
        StoreAction::Delete
    } else {
        StoreAction::Keep
    }
}

pub open spec fn disconnected_text() -> Seq<u8> {
    seq![
        68u8, 105, 115, 99, 111, 110, 110, 101, 99, 116, 101, 100, 32, 111, 112, 101, 114, 97,
        116, 105, 111, 110,
    ]
}

pub open spec fn revalidation_failed_text() -> Seq<u8> {
    seq![82u8, 101, 118, 97, 108, 105, 100, 97, 116, 105, 111, 110, 32, 102, 97, 105, 108, 101, 100]
}

pub open spec fn miscellaneous_text() -> Seq<u8> {
    seq![
        77u8, 105, 115, 99, 101, 108, 108, 97, 110, 101, 111, 117, 115, 32, 87, 97, 114, 110, 105,
        110, 103, 32,
    ]
}

/// `Disconnected operation`
fn disconnected_bytes() -> (r: Vec<u8>)
    ensures
        r@ == disconnected_text(),
{
    let r = vec![
        68u8, 105, 115, 99, 111, 110, 110, 101, 99, 116, 101, 100, 32, 111, 112, 101, 114, 97,
        116, 105, 111, 110,
    ];
    assert(r@ =~= disconnected_text());
    r
}

/// `Revalidation failed`
fn revalidation_failed_bytes() -> (r: Vec<u8>)
    ensures
        r@ == revalidation_failed_text(),
{
    let r = vec![82u8, 101, 118, 97, 108, 105, 100, 97, 116, 105, 111, 110, 32, 102, 97, 105, 108, 101, 100];
    assert(r@ =~= revalidation_failed_text());
    r
}

/// `Miscellaneous Warning `, the start of the text of a 199 warning.
fn miscellaneous_bytes() -> (r: Vec<u8>)
    ensures
        r@ == miscellaneous_text(),
{
    let r = vec![
        77u8, 105, 115, 99, 101, 108, 108, 97, 110, 101, 111, 117, 115, 32, 87, 97, 114, 110, 105,
        110, 103, 32,
    ];
    assert(r@ =~= miscellaneous_text());
    r
}

/// `res` with one more `Warning` header, where one can be built for `url`.
pub open spec fn with_warning(res: ResponseView, url: Seq<char>, code: u16, text: Seq<u8>, secs: u64) -> ResponseView {
    match built_warning(url, code, text, secs) {
        Ok(v) => ResponseView { headers: res.headers.push((warning_name(), v)), ..res },
        Err(_) => res,
    }
}

/// A stored response with its 1xx warnings dropped.
pub open spec fn stripped(res: ResponseView) -> ResponseView {
    ResponseView { headers: stripped_headers(res.headers), ..res }
}

/// What the cache does once the store has been read.
pub enum Lookup {
    /// Fail: the request allowed no network access and nothing was stored.
    NotCached,
    /// Fetch from the origin, as if nothing were stored.
    Fetch,
    /// Answer with this response.
    Serve(HttpResponse),
    /// Revalidate this stored response with the origin.
    Revalidate(HttpResponse),
}

pub enum LookupView {
    NotCached,
    Fetch,
    Serve(ResponseView),
    Revalidate(ResponseView),
}

impl View for Lookup {
    type V = LookupView;

    open spec fn view(&self) -> LookupView {
        match self {
            Lookup::NotCached => LookupView::NotCached,
            Lookup::Fetch => LookupView::Fetch,
            Lookup::Serve(r) => LookupView::Serve(r@),
            Lookup::Revalidate(r) => LookupView::Revalidate(r@),
        }
    }
}

/// The decision on a store read: `stored` is what the store held, `fresh` what the freshness
/// policy says of it.
pub open spec fn lookup_for(
    mode: CacheMode,
    req: RequestView,
    stored: Option<ResponseView>,
    fresh: bool,
    secs: u64,
) -> LookupView {
    match stored {
        None => if mode == CacheMode::OnlyIfCached {
            LookupView::NotCached
        } else {
            LookupView::Fetch
        },
        Some(res) => if mode == CacheMode::Default && fresh {
            LookupView::Serve(stripped(res))
        } else if mode == CacheMode::Default {
            LookupView::Revalidate(stripped(res))
        } else if mode == CacheMode::ForceCache || mode == CacheMode::OnlyIfCached {
            LookupView::Serve(with_warning(stripped(res), req.url, 112, disconnected_text(), secs))
        } else {
            LookupView::Fetch
        },
    }
}

/// Decides what to do with what the store held for a cacheable request.
pub fn decide_lookup(
    mode: CacheMode,
    req: &HttpRequest,
    stored: Option<HttpResponse>,
    fresh: bool,
    now_secs: u64,
) -> (r: Lookup)
    requires
        now_secs < HTTP_DATE_LIMIT,
    ensures
        r@ == lookup_for(mode, req@, match stored {
            Some(s) => Some(s@),
            None => None,
        }, fresh, now_secs),
{
    match stored {
        None => {
            if mode == CacheMode::OnlyIfCached {
                Lookup::NotCached
            } else {
                Lookup::Fetch
            }
        },
        Some(res) => {
            let mut res = res;
            strip_informational_warnings(&mut res);
            if mode == CacheMode::Default && fresh {
                Lookup::Serve(res)
            } else if mode == CacheMode::Default {
                Lookup::Revalidate(res)
            } else if mode == CacheMode::ForceCache || mode == CacheMode::OnlyIfCached {
                let text = disconnected_bytes();
                let _ = append_warning(&mut res, req.url.as_str(), 112, text.as_slice(), now_secs);
                Lookup::Serve(res)
            } else {
                Lookup::Fetch
            }
        },
    }
}

/// `hs` with `h` set: every header of that name replaced by `h`, placed last.
pub open spec fn with_header_set(hs: Seq<HeaderView>, h: HeaderView) -> Seq<HeaderView> {
    without_name(hs, h.0).push(h)
}

/// `hs` with each of `vs` set in turn.
pub open spec fn with_validators(hs: Seq<HeaderView>, vs: Seq<HeaderView>) -> Seq<HeaderView>
    decreases vs.len(),
{
    if vs.len() == 0 {
        hs
    } else {
        with_header_set(with_validators(hs, vs.drop_last()), vs.last())
    }
}

/// The conditional request sent to revalidate: a copy of `req` with the validator headers that
/// the freshness policy produced (`If-None-Match`, `If-Modified-Since`) set.
pub fn revalidation_request(req: &HttpRequest, validators: &Vec<Header>) -> (r: HttpRequest)
    ensures
        r@.method == req@.method,
        r@.url == req@.url,
        r@.headers == with_validators(req@.headers, crate::message::headers_view(validators@)),
{
    let ghost vs = crate::message::headers_view(validators@);
    let mut headers = copy_headers(&req.headers);
    let mut i: usize = 0;
    while i < validators.len()
        invariant
            i <= validators@.len(),
            vs == crate::message::headers_view(validators@),
            crate::message::headers_view(headers@) == with_validators(
                req@.headers,
                vs.subrange(0, i as int),
            ),
        decreases validators@.len() - i,
    {
        let ghost p = vs.subrange(0, i as int + 1);
        assert(p.drop_last() =~= vs.subrange(0, i as int));
        assert(p.last() == validators@[i as int]@);
        remove_headers(&mut headers, validators[i].name.as_slice());
        append_header(&mut headers, validators[i].name.as_slice(), validators[i].value.as_slice());
        i = i + 1;
    }
    assert(vs.subrange(0, vs.len() as int) =~= vs);
    HttpRequest { method: req.method.duplicate(), url: req.url.clone(), headers }
}

/// 5xx
pub open spec fn is_server_error(status: u16) -> bool {
    500 <= status < 600
}

/// What the cache does once the origin has answered a revalidation.
pub enum Revalidation {
    /// Fail with the transport error that the fetch gave.
    Fail,
    /// Answer with this response and leave the store alone.
    Serve(HttpResponse),
    /// Put this response into the store, then answer with what the store hands back.
    Store(HttpResponse),
}

pub enum RevalidationView {
    Fail,
    Serve(ResponseView),
    Store(ResponseView),
}

impl View for Revalidation {
    type V = RevalidationView;

    open spec fn view(&self) -> RevalidationView {
        match self {
            Revalidation::Fail => RevalidationView::Fail,
            Revalidation::Serve(r) => RevalidationView::Serve(r@),
            Revalidation::Store(r) => RevalidationView::Store(r@),
        }
    }
}

/// The decision on a revalidation: `outcome` is the origin's response, or the text of the
/// transport error.
pub open spec fn revalidation_for(
    req: RequestView,
    cached: ResponseView,
    outcome: Result<ResponseView, Seq<u8>>,
    secs: u64,
) -> RevalidationView {
    match outcome {
        Err(e) => if requires_revalidation(cached.headers) {
            RevalidationView::Fail
        } else {
            RevalidationView::Serve(
                with_warning(
                    with_warning(cached, req.url, 111, revalidation_failed_text(), secs),
                    req.url,
                    199,
                    miscellaneous_text() + e,
                    secs,
                ),
            )
        },
        Ok(new) => if is_server_error(new.status) && requires_revalidation(cached.headers) {
            RevalidationView::Serve(with_warning(cached, req.url, 111, revalidation_failed_text(), secs))
        } else if new.status == 304 {
            RevalidationView::Store(ResponseView { status: new.status, headers: new.headers, body: cached.body })
        } else {
            RevalidationView::Serve(new)
        },
    }
}

/// Decides what a revalidation of `cached`, made for `req`, comes to.
pub fn after_revalidation(
    req: &HttpRequest,
    cached: HttpResponse,
    outcome: Result<HttpResponse, Vec<u8>>,
    now_secs: u64,
) -> (r: Revalidation)
    requires
        now_secs < HTTP_DATE_LIMIT,
    ensures
        r@ == revalidation_for(req@, cached@, match outcome {
            Ok(n) => Ok(n@),
            Err(e) => Err(e@),
        }, now_secs),
{
    let mut cached = cached;
    match outcome {
        Err(e) => {
            if must_revalidate(&cached) {
                Revalidation::Fail
            } else {
                let failed = revalidation_failed_bytes();
                let _ = append_warning(&mut cached, req.url.as_str(), 111, failed.as_slice(), now_secs);
                let mut text = miscellaneous_bytes();
                let mut detail = e;
                text.append(&mut detail);
                let _ = append_warning(&mut cached, req.url.as_str(), 199, text.as_slice(), now_secs);
                Revalidation::Serve(cached)
            }
        },
        Ok(new) => {
            if 500 <= new.status && new.status < 600 && must_revalidate(&cached) {
                let failed = revalidation_failed_bytes();
                let _ = append_warning(&mut cached, req.url.as_str(), 111, failed.as_slice(), now_secs);
                Revalidation::Serve(cached)
            } else if new.status == 304 {
                Revalidation::Store(HttpResponse { status: new.status, headers: new.headers, body: cached.body })
            } else {
                Revalidation::Serve(new)
            }
        },
    }
}

} // verus!
