//! An HTTP response cache that follows the caching rules of RFC 7234.
//!
//! The library holds the cache's decisions: which requests may be answered
//! from the store, when a stored response is revalidated, how an origin's
//! `304` is spliced onto a stored body, when a stale response is served with
//! a warning, and which answers are stored or invalidate an entry. The
//! network, the freshness computation and the storage engine stay outside:
//! their results come in as plain values.
use vstd::prelude::*;

pub mod headers;
pub mod managers;
pub mod message;
pub mod mode;
pub mod revalidate;
pub mod text;
pub mod warning;

pub use headers::Headers;
pub use managers::{
    from_store, invalidation_request, req_key, to_store, CACacheManager, HttpVersion, StoredResponse,
};
pub use message::{CacheError, HttpRequest, HttpResponse};
pub use mode::{gateway_timeout, is_cacheable, on_lookup, strip_informational_warnings, CacheMode, Dispatch};
pub use revalidate::{
    after_fetch, on_freshness, on_revalidation, splice_not_modified, update_request_headers,
    update_response_headers, Freshness, Outcome, StoreAction,
};
pub use warning::{add_warning, get_warning_code, must_revalidate};

verus! {

} // verus!
