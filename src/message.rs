use vstd::prelude::*;
use crate::headers::Headers;

verus! {

/// An outgoing request, as the cache sees it.
pub struct HttpRequest {
    /// The method, such as `GET`.
    pub method: String,
    /// The absolute URL, serialised.
    pub url: String,
    pub headers: Headers,
}

/// A response, as the cache sees it.
pub struct HttpResponse {
    pub status: u16,
    pub headers: Headers,
    pub body: Vec<u8>,
    /// The final URL, serialised.
    pub url: String,
    /// The protocol version as written on the wire, such as `HTTP/1.1`.
    pub version: String,
}

/// What a response is, as a mathematical value.
pub ghost struct ResponseView {
    pub status: u16,
    pub headers: Seq<crate::headers::Field>,
    pub body: Seq<u8>,
    pub url: Seq<char>,
    pub version: Seq<char>,
}

impl View for HttpResponse {
    type V = ResponseView;

    open spec fn view(&self) -> ResponseView {
        ResponseView {
            status: self.status,
            headers: self.headers@,
            body: self.body@,
            url: self.url@,
            version: self.version@,
        }
    }
}

/// The errors of this library's own steps.
#[derive(PartialEq, Eq, Structural, Debug, Clone, Copy)]
pub enum CacheError {
    /// A URL without a host, where one is needed to sign a warning.
    InvalidUrl,
    /// A protocol version that the stored record cannot hold.
    UnknownHttpVersion,
    /// A time that an HTTP-date cannot show, where a warning must be dated.
    DateOutOfRange,
}

pub open spec fn is_get_or_head(m: Seq<char>) -> bool {
    m == seq!['G', 'E', 'T'] || m == seq!['H', 'E', 'A', 'D']
}

/// Whether a method is `GET` or `HEAD`, the ones whose answers are kept.
pub fn method_is_get_or_head(m: &str) -> (r: bool)
    ensures
        r == is_get_or_head(m@),
{
    let get = String::from_str("GET");
    let head = String::from_str("HEAD");
    proof {
        reveal_strlit("GET");
        reveal_strlit("HEAD");
        assert("GET"@ =~= seq!['G', 'E', 'T']);
        assert("HEAD"@ =~= seq!['H', 'E', 'A', 'D']);
    }
    let m = m.to_owned();
    m == get || m == head
}

} // verus!
