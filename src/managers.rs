use vstd::prelude::*;
use crate::headers::{
    distinct_names, lemma_lower_idempotent, lemma_without_fields, lookup, lowercase_names, with_field,
    without, Field, Headers,
};
use crate::text::lower;
use crate::message::{is_get_or_head, CacheError, HttpRequest, HttpResponse};
use crate::mode::CacheMode;
use crate::revalidate::{
    apply_fields, last_value, lemma_apply_fields_lookup, set_fields, store_action_of, StoreAction,
};

verus! {

/// The protocol versions that a stored record can hold.
#[derive(PartialEq, Eq, Structural, Debug, Clone, Copy)]
pub enum HttpVersion {
    Http09,
    Http10,
    Http11,
    H2,
    H3,
}

/// How a version is written on the wire.
pub open spec fn wire_of(v: HttpVersion) -> Seq<char> {
    match v {
        HttpVersion::Http09 => seq!['H', 'T', 'T', 'P', '/', '0', '.', '9'],
        HttpVersion::Http10 => seq!['H', 'T', 'T', 'P', '/', '1', '.', '0'],
        HttpVersion::Http11 => seq!['H', 'T', 'T', 'P', '/', '1', '.', '1'],
        HttpVersion::H2 => seq!['H', 'T', 'T', 'P', '/', '2', '.', '0'],
        HttpVersion::H3 => seq!['H', 'T', 'T', 'P', '/', '3', '.', '0'],
    }
}

/// The version that a wire text names, if any.
pub open spec fn version_of(s: Seq<char>) -> Option<HttpVersion> {
    if s == wire_of(HttpVersion::Http09) {
        Some(HttpVersion::Http09)
    } else if s == wire_of(HttpVersion::Http10) {
        Some(HttpVersion::Http10)
    } else if s == wire_of(HttpVersion::Http11) {
        Some(HttpVersion::Http11)
    } else if s == wire_of(HttpVersion::H2) {
        Some(HttpVersion::H2)
    } else if s == wire_of(HttpVersion::H3) {
        Some(HttpVersion::H3)
    } else {
        None
    }
}

impl HttpVersion {
    /// The version written on the wire as `s`; any other text is refused.
    pub fn from_wire(s: &str) -> (r: Result<HttpVersion, CacheError>)
        ensures
            match version_of(s@) {
                Some(v) => r == Ok::<HttpVersion, CacheError>(v),
                None => r == Err::<HttpVersion, CacheError>(CacheError::UnknownHttpVersion),
            },
    {
        let s = s.to_owned();
        if s == HttpVersion::Http09.to_wire() {
            Ok(HttpVersion::Http09)
        } else if s == HttpVersion::Http10.to_wire() {
            Ok(HttpVersion::Http10)
        } else if s == HttpVersion::Http11.to_wire() {
            Ok(HttpVersion::Http11)
        } else if s == HttpVersion::H2.to_wire() {
            Ok(HttpVersion::H2)
        } else if s == HttpVersion::H3.to_wire() {
            Ok(HttpVersion::H3)
        } else {
            Err(CacheError::UnknownHttpVersion)
        }
    }

    /// How this version is written on the wire.
    pub fn to_wire(&self) -> (r: String)
        ensures
            r@ == wire_of(*self),
    {
        let r = match self {
            HttpVersion::Http09 => String::from_str("HTTP/0.9"),
            HttpVersion::Http10 => String::from_str("HTTP/1.0"),
            HttpVersion::Http11 => String::from_str("HTTP/1.1"),
            HttpVersion::H2 => String::from_str("HTTP/2.0"),
            HttpVersion::H3 => String::from_str("HTTP/3.0"),
        };
        proof {
            reveal_strlit("HTTP/0.9");
            reveal_strlit("HTTP/1.0");
            reveal_strlit("HTTP/1.1");
            reveal_strlit("HTTP/2.0");
            reveal_strlit("HTTP/3.0");
            assert(r@ =~= wire_of(*self));
        }
        r
    }
}

} // verus!

verus! {

/// A response as the store keeps it: one value per field name, the last one
/// written.
pub struct StoredResponse {
    pub body: Vec<u8>,
    pub headers: Headers,
    pub status: u16,
    pub url: String,
    pub version: HttpVersion,
}

/// The fields of `h` with one value per name: each name's last value.
pub open spec fn collapsed(h: Seq<Field>) -> Seq<Field> {
    apply_fields(Seq::empty(), h)
}

/// The record under which a response is kept; refused when its protocol
/// version has no place in a record.
pub fn to_store(res: &HttpResponse) -> (r: Result<StoredResponse, CacheError>)
    ensures
        match version_of(res.version@) {
            Some(v) => r matches Ok(s) && s.version == v && s.status == res.status && s.body@
                == res.body@ && s.url@ == res.url@ && s.headers@ == collapsed(res.headers@),
            None => r matches Err(CacheError::UnknownHttpVersion),
        },
{
    let version = match HttpVersion::from_wire(res.version.as_str()) {
        Ok(v) => v,
        Err(e) => {
            return Err(e);
        },
    };
    let mut headers = Headers::new();
    set_fields(&mut headers, &res.headers);
    Ok(StoredResponse {
        body: res.body.clone(),
        headers,
        status: res.status,
        url: res.url.clone(),
        version,
    })
}

/// The response that a record stands for.
pub fn from_store(store: &StoredResponse) -> (r: HttpResponse)
    ensures
        r.status == store.status,
        r.body@ == store.body@,
        r.url@ == store.url@,
        r.version@ == wire_of(store.version),
        r.headers@ == collapsed(store.headers@),
{
    let mut headers = Headers::new();
    set_fields(&mut headers, &store.headers);
    HttpResponse {
        status: store.status,
        headers,
        body: store.body.clone(),
        url: store.url.clone(),
        version: store.version.to_wire(),
    }
}

/// The key of a request's exchange: its method, a colon, and its URL.
pub open spec fn key_of(method: Seq<char>, url: Seq<char>) -> Seq<char> {
    method + seq![':'] + url
}

/// The key under which a request's exchange is kept.
pub fn req_key(req: &HttpRequest) -> (r: String)
    ensures
        r@ == key_of(req.method@, req.url@),
{
    let mut k = req.method.clone();
    k.append(":");
    k.append(req.url.as_str());
    proof {
        reveal_strlit(":");
    }
    assert(k@ =~= key_of(req.method@, req.url@));
    k
}

/// The request whose stored exchange a write to `req`'s URL makes obsolete:
/// a `GET` of the same URL.
pub fn invalidation_request(req: &HttpRequest) -> (r: HttpRequest)
    ensures
        r.method@ == seq!['G', 'E', 'T'],
        r.url@ == req.url@,
        r.headers@.len() == 0,
{
    let method = String::from_str("GET");
    proof {
        reveal_strlit("GET");
        assert(method@ =~= seq!['G', 'E', 'T']);
    }
    HttpRequest { method, url: req.url.clone(), headers: Headers::new() }
}

/// A write invalidates what a read of its URL finds: a request that is not
/// `GET` or `HEAD` leads the gateway to invalidate, and the key of the `GET`
/// it invalidates is the key of a `GET` of `read_url` exactly when the URLs
/// are the same.
pub proof fn lemma_write_invalidates_read(
    mode: CacheMode,
    method: Seq<char>,
    url: Seq<char>,
    read_url: Seq<char>,
    status: u16,
    policy_storable: bool,
)
    requires
        !is_get_or_head(method),
    ensures
        store_action_of(mode, method, status, policy_storable) == StoreAction::Invalidate,
        (key_of(seq!['G', 'E', 'T'], url) == key_of(seq!['G', 'E', 'T'], read_url)) == (url
            == read_url),
{
    let a = key_of(seq!['G', 'E', 'T'], url);
    let b = key_of(seq!['G', 'E', 'T'], read_url);
    assert(a.subrange(4, a.len() as int) =~= url);
    assert(b.subrange(4, b.len() as int) =~= read_url);
}

/// A version written to the wire reads back as itself.
pub proof fn lemma_version_round_trip(v: HttpVersion)
    ensures
        version_of(wire_of(v)) == Some(v),
{
}

/// The content-addressed store's settings: the directory that holds it.
#[derive(Debug, Clone)]
pub struct CACacheManager {
    /// Directory where the cache is kept.
    pub path: String,
}

pub open spec fn default_path() -> Seq<char> {
    seq!['.', '/', 'r', 'e', 'q', 'w', 'e', 's', 't', '-', 'c', 'a', 'c', 'a', 'c', 'h', 'e']
}

impl Default for CACacheManager {
    fn default() -> (r: CACacheManager)
        ensures
            r.path@ == default_path(),
    {
        let path = String::from_str("./reqwest-cacache");
        proof {
            reveal_strlit("./reqwest-cacache");
            assert(path@ =~= default_path());
        }
        CACacheManager { path }
    }
}

impl CACacheManager {
    /// A store kept in the directory `path`.
    pub fn new(path: &str) -> (r: CACacheManager)
        ensures
            r.path@ == path@,
    {
        CACacheManager { path: path.to_owned() }
    }
}

} // verus!

verus! {

/// A record keeps, for each field name, the last value that the response
/// gave it.
pub proof fn lemma_record_last_write_wins(h: Seq<Field>, m: Seq<char>)
    ensures
        lookup(collapsed(h), m) == last_value(h, m),
{
    lemma_apply_fields_lookup(Seq::empty(), h, m);
}

} // verus!

verus! {

proof fn lemma_with_field_names(h: Seq<Field>, n: Seq<char>, v: Seq<char>)
    requires
        lower(n) == n,
        lowercase_names(h),
        distinct_names(h),
    ensures
        lowercase_names(with_field(h, n, v)),
        distinct_names(with_field(h, n, v)),
{
    lemma_without_fields(h, n);
    let w = without(h, n);
    let r = w.push((n, v));
    assert forall|i: int| 0 <= i < r.len() implies lower(#[trigger] r[i].0) == r[i].0 by {
        if i < w.len() {
            assert(r[i] == w[i]);
        }
    }
    assert forall|a: int, b: int| 0 <= a < b < r.len() implies #[trigger] r[a].0
        != #[trigger] r[b].0 by {
        assert(r[a] == w[a]);
        if b < w.len() {
            assert(r[b] == w[b]);
        }
    }
}

proof fn lemma_apply_fields_names(h: Seq<Field>, p: Seq<Field>)
    requires
        lowercase_names(h),
        distinct_names(h),
    ensures
        lowercase_names(apply_fields(h, p)),
        distinct_names(apply_fields(h, p)),
    decreases p.len(),
{
    if p.len() > 0 {
        lemma_apply_fields_names(h, p.drop_last());
        lemma_lower_idempotent(p.last().0);
        lemma_with_field_names(apply_fields(h, p.drop_last()), lower(p.last().0), p.last().1);
    }
}

proof fn lemma_collapsed_identity(h: Seq<Field>)
    requires
        lowercase_names(h),
        distinct_names(h),
    ensures
        collapsed(h) == h,
    decreases h.len(),
{
    if h.len() > 0 {
        let d = h.drop_last();
        let l = h.last();
        assert(lowercase_names(d));
        assert(distinct_names(d));
        lemma_collapsed_identity(d);
        assert(h[h.len() - 1] == l);
        assert(lower(l.0) == l.0);
        assert forall|i: int| 0 <= i < d.len() implies (#[trigger] d[i]).0 != l.0 by {
            assert(d[i] == h[i]);
        }
        lemma_without_fields(d, l.0);
        assert(h =~= d.push(l));
    }
}

/// A record holds lower-cased, distinct names; reading a record back and
/// storing it again gives the same fields; and a response whose names are
/// already lower-cased and distinct is stored with exactly its fields.
pub proof fn lemma_record_round_trip(h: Seq<Field>)
    ensures
        lowercase_names(collapsed(h)),
        distinct_names(collapsed(h)),
        collapsed(collapsed(h)) == collapsed(h),
        lowercase_names(h) && distinct_names(h) ==> collapsed(h) == h,
{
    lemma_apply_fields_names(Seq::empty(), h);
    lemma_collapsed_identity(collapsed(h));
    if lowercase_names(h) && distinct_names(h) {
        lemma_collapsed_identity(h);
    }
}

} // verus!
