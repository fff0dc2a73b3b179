use vstd::prelude::*;
use crate::headers::{with_field, without, Field, Headers};
use crate::message::{
    is_get_or_head, method_is_get_or_head, CacheError, HttpRequest, HttpResponse, ResponseView,
};
use crate::warning::{
    add_warning, code_of_value, url_host_of, warning_name, warning_value, warning_value_code,
    HTTP_DATE_LIMIT,
};

verus! {

/// How a cache treats every request routed through it.
#[derive(PartialEq, Eq, Structural, Debug, Clone, Copy)]
pub enum CacheMode {
    /// Use a fresh stored response, revalidate a stale one, fetch otherwise;
    /// then keep the answer.
    Default,
    /// Behave as if there were no cache at all.
    NoStore,
    /// Skip the cache on the way out, and keep the answer.
    Reload,
    /// Always revalidate a stored response; fetch otherwise; keep the answer.
    NoCache,
    /// Use any stored response, fresh or not; fetch otherwise.
    ForceCache,
    /// Use any stored response, fresh or not; never go to the network.
    OnlyIfCached,
}

/// Two responses that differ at most in their header fields.
pub open spec fn same_but_headers(a: HttpResponse, b: HttpResponse) -> bool {
    a.status == b.status && a.body@ == b.body@ && a.url@ == b.url@ && a.version@ == b.version@
}

/// Whether a request may be answered from the store at all.
pub open spec fn cacheable(method: Seq<char>, mode: CacheMode) -> bool {
    is_get_or_head(method) && mode != CacheMode::NoStore && mode != CacheMode::Reload
}

/// A `Warning` field whose own code is in the `1xx` range.
pub open spec fn is_informational_warning(f: Field) -> bool {
    f.0 == warning_name() && match code_of_value(f.1) {
        Some(c) => 100 <= c < 200,
        None => false,
    }
}

/// The fields of a stored response once it is picked for use: each warning
/// with a `1xx` code goes, every other field stays, in order.
pub open spec fn stripped_warnings(h: Seq<Field>) -> Seq<Field>
    decreases h.len(),
{
    if h.len() == 0 {
        h
    } else if is_informational_warning(h.last()) {
        stripped_warnings(h.drop_last())
    } else {
        stripped_warnings(h.drop_last()).push(h.last())
    }
}

/// A stored response as it is picked for use.
pub open spec fn picked(stored: ResponseView) -> ResponseView {
    ResponseView { headers: stripped_warnings(stored.headers), ..stored }
}

pub open spec fn no_cache_value() -> Seq<char> {
    seq!['n', 'o', '-', 'c', 'a', 'c', 'h', 'e']
}

pub open spec fn disconnected_text() -> Seq<char> {
    seq![
        'D', 'i', 's', 'c', 'o', 'n', 'n', 'e', 'c', 't', 'e', 'd', ' ', 'o', 'p', 'e', 'r', 'a', 't',
        'i', 'o', 'n',
    ]
}

/// What the dispatcher does next.
pub enum Dispatch {
    /// Send the request through the remote fetch gateway.
    Fetch,
    /// Revalidate this stored response with the conditional fetch engine.
    Revalidate(HttpResponse),
    /// Answer with this response, without the network.
    Respond(HttpResponse),
}

/// Whether the store is consulted for a request: only for `GET` and `HEAD`,
/// and not in the modes `NoStore` and `Reload`.
pub fn is_cacheable(method: &str, mode: CacheMode) -> (r: bool)
    ensures
        r == cacheable(method@, mode),
{
    method_is_get_or_head(method) && mode != CacheMode::NoStore && mode != CacheMode::Reload
}

/// Drops each `Warning` field with a `1xx` code; keeps every other field.
pub fn strip_informational_warnings(res: &mut HttpResponse)
    ensures
        final(res).headers@ == stripped_warnings(old(res).headers@),
        same_but_headers(*final(res), *old(res)),
{
    let warning = String::from_str("warning");
    proof {
        reveal_strlit("warning");
        assert(warning@ =~= warning_name());
    }
    let ghost h = res.headers@;
    let mut kept = Headers::new();
    let mut i: usize = 0;
    while i < res.headers.len()
        invariant
            h == res.headers@,
            i <= h.len(),
            warning@ == warning_name(),
            kept@ == stripped_warnings(h.subrange(0, i as int)),
        decreases h.len() - i,
    {
        let (n, v) = res.headers.field(i);
        proof {
            assert(h.subrange(0, i + 1).drop_last() =~= h.subrange(0, i as int));
        }
        let informational = n == warning && match warning_value_code(v.as_str()) {
            Some(c) => 100 <= c && c < 200,
            None => false,
        };
        if !informational {
            kept.push_field(n, v);
        }
        i = i + 1;
    }
    assert(h.subrange(0, h.len() as int) =~= h);
    res.headers = kept;
}

/// The answer to a request that may only be served from the store when the
/// store has nothing: `504 Gateway Timeout` with an empty body.
pub fn gateway_timeout(req: &HttpRequest) -> (r: HttpResponse)
    ensures
        r.status == 504,
        r.body@.len() == 0,
        r.headers@.len() == 0,
        r.url@ == req.url@,
{
    let version = String::from_str("HTTP/1.1");
    HttpResponse {
        status: 504,
        headers: Headers::new(),
        body: Vec::new(),
        url: req.url.clone(),
        version,
    }
}

/// The dispatcher's decision once the store was consulted for a cacheable
/// request; `cached` is what the store held. `now` dates a warning, where
/// one is added.
pub fn on_lookup(mode: CacheMode, req: &mut HttpRequest, cached: Option<HttpResponse>, now: u64) -> (r:
    Result<Dispatch, CacheError>)
    ensures
        final(req).method@ == old(req).method@,
        final(req).url@ == old(req).url@,
        mode != CacheMode::NoCache || cached is None ==> final(req).headers@ == old(req).headers@,
        cached is Some && mode == CacheMode::NoCache ==> final(req).headers@ == with_field(
            old(req).headers@,
            crate::warning::cache_control_name(),
            no_cache_value(),
        ),
        match cached {
            None => if mode == CacheMode::OnlyIfCached {
                r matches Ok(Dispatch::Respond(x)) && x.status == 504 && x.body@.len() == 0
                    && x.headers@.len() == 0
            } else {
                r matches Ok(Dispatch::Fetch)
            },
            Some(c) => if mode == CacheMode::Default || mode == CacheMode::NoCache {
                r matches Ok(Dispatch::Revalidate(x)) && same_but_headers(x, c) && x.headers@
                    == stripped_warnings(c.headers@) && x@ == picked(c@)
            } else if mode == CacheMode::ForceCache || mode == CacheMode::OnlyIfCached {
                match url_host_of(old(req).url@) {
                    Some(host) => if now < HTTP_DATE_LIMIT {
                        r matches Ok(Dispatch::Respond(x)) && same_but_headers(x, c) && x.headers@
                            == stripped_warnings(c.headers@).push(
                            (warning_name(), warning_value(112, host, disconnected_text(), now)),
                        )
                    } else {
                        r == Err::<Dispatch, CacheError>(CacheError::DateOutOfRange)
                    },
                    None => r == Err::<Dispatch, CacheError>(CacheError::InvalidUrl),
                }
            } else {
                r matches Ok(Dispatch::Fetch)
            },
        },
{
    match cached {
        None => {
            if mode == CacheMode::OnlyIfCached {
                Ok(Dispatch::Respond(gateway_timeout(req)))
            } else {
                Ok(Dispatch::Fetch)
            }
        },
        Some(c) => {
            let mut c = c;
            strip_informational_warnings(&mut c);
            if mode == CacheMode::Default {
                Ok(Dispatch::Revalidate(c))
            } else if mode == CacheMode::NoCache {
                proof {
                    reveal_strlit("cache-control");
                    reveal_strlit("no-cache");
                    assert(crate::text::lower("cache-control"@) =~= crate::warning::cache_control_name());
                    assert("no-cache"@ =~= no_cache_value());
                }
                req.headers.insert("cache-control", "no-cache");
                Ok(Dispatch::Revalidate(c))
            } else if mode == CacheMode::ForceCache || mode == CacheMode::OnlyIfCached {
                proof {
                    reveal_strlit("Disconnected operation");
                    assert("Disconnected operation"@ =~= disconnected_text());
                }
                match add_warning(&mut c, req.url.as_str(), 112, "Disconnected operation", now) {
                    Ok(()) => Ok(Dispatch::Respond(c)),
                    Err(e) => Err(e),
                }
            } else {
                Ok(Dispatch::Fetch)
            }
        },
    }
}

} // verus!
