use vstd::prelude::*;
use crate::headers::{lookup, with_field, Field, Headers};
use crate::message::{
    is_get_or_head, method_is_get_or_head, CacheError, HttpRequest, HttpResponse, ResponseView,
};
use crate::mode::{same_but_headers, CacheMode};
use crate::text::lower;
use crate::warning::{
    add_warning, must_revalidate, must_revalidate_of, url_host_of, warning_name, warning_value,
    HTTP_DATE_LIMIT,
};

verus! {

/// The fields `p` set one after the other onto `h`, each replacing the
/// earlier values of its name.
pub open spec fn apply_fields(h: Seq<Field>, p: Seq<Field>) -> Seq<Field>
    decreases p.len(),
{
    if p.len() == 0 {
        h
    } else {
        with_field(apply_fields(h, p.drop_last()), lower(p.last().0), p.last().1)
    }
}

/// A response with the fields `p` set on it.
pub open spec fn with_fields(r: ResponseView, p: Seq<Field>) -> ResponseView {
    ResponseView { headers: apply_fields(r.headers, p), ..r }
}

/// The stored response's body under the fields, status and version of the
/// origin's `304` answer.
pub open spec fn spliced(stored: ResponseView, answer: ResponseView) -> ResponseView {
    ResponseView {
        status: answer.status,
        headers: answer.headers,
        body: stored.body,
        url: stored.url,
        version: answer.version,
    }
}

pub open spec fn is_server_error(status: u16) -> bool {
    500 <= status <= 599
}

pub const NOT_MODIFIED: u16 = 304;

pub open spec fn revalidation_failed_text() -> Seq<char> {
    seq!['R', 'e', 'v', 'a', 'l', 'i', 'd', 'a', 't', 'i', 'o', 'n', ' ', 'f', 'a', 'i', 'l', 'e', 'd']
}

/// The text of the miscellaneous warning that carries a transport error.
pub open spec fn misc_text(e: Seq<char>) -> Seq<char> {
    seq![
        'M', 'i', 's', 'c', 'e', 'l', 'l', 'a', 'n', 'e', 'o', 'u', 's', ' ', 'W', 'a', 'r', 'n', 'i',
        'n', 'g', ' ',
    ] + e
}

/// The policy evaluator's verdict on a stored response, before a request.
pub enum Freshness {
    /// Still fresh: use it, with these fields set on it.
    Fresh(Headers),
    /// Stale: ask the origin; when `matches` holds, with these request fields set.
    Stale { request_headers: Headers, matches: bool },
}

/// What the conditional fetch engine does with the origin's answer.
pub enum Outcome {
    /// Answer with this response.
    Respond(HttpResponse),
    /// Fail with the transport's error as it came.
    Fail,
    /// The origin confirmed the stored body: set the policy's fields on this
    /// response, store it with the new policy and answer with what was stored.
    Store(HttpResponse),
}

/// Sets each field of `parts` on `h`.
pub fn set_fields(h: &mut Headers, parts: &Headers)
    ensures
        final(h)@ == apply_fields(old(h)@, parts@),
{
    let ghost h0 = h@;
    let mut i: usize = 0;
    while i < parts.len()
        invariant
            i <= parts@.len(),
            h@ == apply_fields(h0, parts@.subrange(0, i as int)),
        decreases parts@.len() - i,
    {
        let (n, v) = parts.field(i);
        proof {
            assert(parts@.subrange(0, i + 1).drop_last() =~= parts@.subrange(0, i as int));
        }
        h.insert(n.as_str(), v.as_str());
        i = i + 1;
    }
    assert(parts@.subrange(0, parts@.len() as int) =~= parts@);
}

/// Sets the fields that the policy evaluator returned on a response.
pub fn update_response_headers(res: &mut HttpResponse, parts: &Headers)
    ensures
        final(res).headers@ == apply_fields(old(res).headers@, parts@),
        same_but_headers(*final(res), *old(res)),
        final(res)@ == with_fields(old(res)@, parts@),
{
    set_fields(&mut res.headers, parts);
}

/// Sets the fields that the policy evaluator returned on a request.
pub fn update_request_headers(req: &mut HttpRequest, parts: &Headers)
    ensures
        final(req).headers@ == apply_fields(old(req).headers@, parts@),
        final(req).method@ == old(req).method@,
        final(req).url@ == old(req).url@,
{
    set_fields(&mut req.headers, parts);
}

/// Acts on the policy evaluator's verdict; returns whether `cached`, now
/// updated, is the answer. Otherwise the request, made conditional where the
/// verdict says so, is to be sent.
pub fn on_freshness(cached: &mut HttpResponse, req: &mut HttpRequest, verdict: Freshness) -> (fresh:
    bool)
    ensures
        final(req).method@ == old(req).method@,
        final(req).url@ == old(req).url@,
        same_but_headers(*final(cached), *old(cached)),
        match verdict {
            Freshness::Fresh(p) => fresh && final(cached).headers@ == apply_fields(
                old(cached).headers@,
                p@,
            ) && final(cached)@ == with_fields(old(cached)@, p@) && final(req).headers@ == old(
                req,
            ).headers@,
            Freshness::Stale { request_headers, matches } => !fresh && final(cached).headers@ == old(
                cached,
            ).headers@ && final(req).headers@ == if matches {
                apply_fields(old(req).headers@, request_headers@)
            } else {
                old(req).headers@
            },
        },
{
    match verdict {
        Freshness::Fresh(p) => {
            update_response_headers(cached, &p);
            true
        },
        Freshness::Stale { request_headers, matches } => {
            if matches {
                update_request_headers(req, &request_headers);
            }
            false
        },
    }
}

/// The stored body under the fields, status and version of the origin's
/// `304` answer.
pub fn splice_not_modified(cached: &HttpResponse, answer: &HttpResponse) -> (r: HttpResponse)
    ensures
        r.status == answer.status,
        r.headers@ == answer.headers@,
        r.body@ == cached.body@,
        r.url@ == cached.url@,
        r.version@ == answer.version@,
        r@ == spliced(cached@, answer@),
{
    HttpResponse {
        status: answer.status,
        headers: answer.headers.duplicate(),
        body: cached.body.clone(),
        url: cached.url.clone(),
        version: answer.version.clone(),
    }
}

} // verus!

verus! {

/// What the conditional fetch engine answers once the origin was asked.
/// `answer` is the transport's result: a response, or the text of its error.
/// `now` dates the warnings, where they are added.
pub fn on_revalidation(
    cached: HttpResponse,
    req: &HttpRequest,
    answer: Result<HttpResponse, String>,
    now: u64,
) -> (r: Result<Outcome, CacheError>)
    ensures
        match answer {
            Ok(a) => if is_server_error(a.status) && must_revalidate_of(cached.headers@) {
                r matches Ok(Outcome::Respond(x)) && x == a
            } else if is_server_error(a.status) {
                match url_host_of(req.url@) {
                    Some(host) => if now < HTTP_DATE_LIMIT {
                        r matches Ok(Outcome::Respond(x)) && same_but_headers(x, cached)
                            && x.headers@ == cached.headers@.push(
                            (warning_name(), warning_value(111, host, revalidation_failed_text(), now)),
                        )
                    } else {
                        r == Err::<Outcome, CacheError>(CacheError::DateOutOfRange)
                    },
                    None => r == Err::<Outcome, CacheError>(CacheError::InvalidUrl),
                }
            } else if a.status == NOT_MODIFIED {
                r matches Ok(Outcome::Store(x)) && x.status == a.status && x.headers@ == a.headers@
                    && x.body@ == cached.body@ && x.url@ == cached.url@ && x.version@ == a.version@
                    && x@ == spliced(cached@, a@)
            } else {
                r matches Ok(Outcome::Respond(x)) && x == cached
            },
            Err(e) => if must_revalidate_of(cached.headers@) {
                r matches Ok(Outcome::Fail)
            } else {
                match url_host_of(req.url@) {
                    Some(host) => if now < HTTP_DATE_LIMIT {
                        r matches Ok(Outcome::Respond(x)) && same_but_headers(x, cached)
                            && x.headers@ == cached.headers@.push(
                            (warning_name(), warning_value(111, host, revalidation_failed_text(), now)),
                        ).push((warning_name(), warning_value(199, host, misc_text(e@), now)))
                    } else {
                        r == Err::<Outcome, CacheError>(CacheError::DateOutOfRange)
                    },
                    None => r == Err::<Outcome, CacheError>(CacheError::InvalidUrl),
                }
            },
        },
{
    proof {
        reveal_strlit("Revalidation failed");
        reveal_strlit("Miscellaneous Warning ");
        assert("Revalidation failed"@ =~= revalidation_failed_text());
    }
    let strict = must_revalidate(&cached);
    match answer {
        Ok(a) => {
            if 500 <= a.status && a.status <= 599 {
                if strict {
                    Ok(Outcome::Respond(a))
                } else {
                    let mut c = cached;
                    match add_warning(&mut c, req.url.as_str(), 111, "Revalidation failed", now) {
                        Ok(()) => Ok(Outcome::Respond(c)),
                        Err(e) => Err(e),
                    }
                }
            } else if a.status == NOT_MODIFIED {
                Ok(Outcome::Store(splice_not_modified(&cached, &a)))
            } else {
                Ok(Outcome::Respond(cached))
            }
        },
        Err(e) => {
            if strict {
                Ok(Outcome::Fail)
            } else {
                let mut c = cached;
                match add_warning(&mut c, req.url.as_str(), 111, "Revalidation failed", now) {
                    Ok(()) => {},
                    Err(e) => {
                        return Err(e);
                    },
                }
                let mut text = String::from_str("Miscellaneous Warning ");
                text.append(e.as_str());
                assert(text@ =~= misc_text(e@));
                match add_warning(&mut c, req.url.as_str(), 199, text.as_str(), now) {
                    Ok(()) => Ok(Outcome::Respond(c)),
                    Err(e) => Err(e),
                }
            }
        },
    }
}

/// What the remote fetch gateway does with the store after an answer.
#[derive(PartialEq, Eq, Structural, Debug, Clone, Copy)]
pub enum StoreAction {
    /// Store the exchange and answer with what was stored.
    Store,
    /// Remove what is stored under the request's key, and answer as received.
    Invalidate,
    /// Answer as received; the store is left alone.
    Pass,
}

/// Whether an exchange is kept: never in the mode `NoStore`, only for `GET`
/// and `HEAD`, only for `200 OK`, and only where the policy allows it.
pub open spec fn storable_exchange(mode: CacheMode, method: Seq<char>, status: u16, policy_storable: bool) -> bool {
    mode != CacheMode::NoStore && is_get_or_head(method) && status == 200 && policy_storable
}

pub open spec fn store_action_of(mode: CacheMode, method: Seq<char>, status: u16, policy_storable: bool) -> StoreAction {
    if storable_exchange(mode, method, status, policy_storable) {
        StoreAction::Store
    } else if !is_get_or_head(method) {
        StoreAction::Invalidate
    } else {
        StoreAction::Pass
    }
}

/// The remote fetch gateway's decision on an answer of `status` to a request
/// of `method`; `policy_storable` is the policy evaluator's judgement.
pub fn after_fetch(mode: CacheMode, method: &str, status: u16, policy_storable: bool) -> (r: StoreAction)
    ensures
        r == store_action_of(mode, method@, status, policy_storable),
{
    let get_head = method_is_get_or_head(method);
    if mode != CacheMode::NoStore && get_head && status == 200 && policy_storable {
        StoreAction::Store
    } else if !get_head {
        StoreAction::Invalidate
    } else {
        StoreAction::Pass
    }
}

} // verus!

verus! {

/// The value of the last field of `p` whose name, lower-cased, is `m`.
pub open spec fn last_value(p: Seq<Field>, m: Seq<char>) -> Option<Seq<char>>
    decreases p.len(),
{
    if p.len() == 0 {
        None
    } else if lower(p.last().0) == m {
        Some(p.last().1)
    } else {
        last_value(p.drop_last(), m)
    }
}

/// Once fields are set, each name that they hold reads back as its last
/// value among them; every other name reads as before.
pub proof fn lemma_apply_fields_lookup(h: Seq<Field>, p: Seq<Field>, m: Seq<char>)
    ensures
        lookup(apply_fields(h, p), m) == match last_value(p, m) {
            Some(v) => Some(v),
            None => lookup(h, m),
        },
    decreases p.len(),
{
    if p.len() > 0 {
        lemma_apply_fields_lookup(h, p.drop_last(), m);
        crate::headers::lemma_lookup_with_field(
            apply_fields(h, p.drop_last()),
            lower(p.last().0),
            p.last().1,
            m,
        );
    }
}

} // verus!

verus! {

/// A fresh hit answers with the stored status and body, unmodified: the
/// response picked from the store, with the evaluator's fields set on it.
pub proof fn lemma_fresh_hit_keeps_body(stored: ResponseView, fields: Seq<Field>)
    ensures
        with_fields(crate::mode::picked(stored), fields).body == stored.body,
        with_fields(crate::mode::picked(stored), fields).status == stored.status,
{
}

/// After a `304`, the answer that is stored keeps the stored body, and each
/// field that the new policy sets reads back as the policy's value; other
/// fields read as in the `304`.
pub proof fn lemma_not_modified_reconciliation(
    stored: ResponseView,
    answer: ResponseView,
    policy_fields: Seq<Field>,
    m: Seq<char>,
)
    requires
        answer.status == NOT_MODIFIED,
    ensures
        with_fields(spliced(stored, answer), policy_fields).body == stored.body,
        with_fields(spliced(stored, answer), policy_fields).status == NOT_MODIFIED,
        lookup(with_fields(spliced(stored, answer), policy_fields).headers, m) == match last_value(
            policy_fields,
            m,
        ) {
            Some(v) => Some(v),
            None => lookup(answer.headers, m),
        },
{
    lemma_apply_fields_lookup(answer.headers, policy_fields, m);
}

} // verus!
