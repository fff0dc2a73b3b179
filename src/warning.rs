use vstd::prelude::*;
use vstd::string::StrSliceExecFns;
use crate::headers::{last_lookup, lookup, Field};
use crate::message::{CacheError, HttpResponse};
use crate::text::{
    closes_element, element_at, has_element, has_list_element, is_ows, lower, opens_element, push_char,
};

verus! {

/// The first second that an HTTP-date cannot show (the year 10000).
pub const HTTP_DATE_LIMIT: u64 = 253402300800;

/// The HTTP-date (IMF-fixdate) of a time given in seconds since the epoch.
pub uninterp spec fn http_date_of(secs: u64) -> Seq<char>;

/// The host of a URL, as the URL parser serialises it; none when the text
/// is no URL or the URL has no host.
pub uninterp spec fn url_host_of(url: Seq<char>) -> Option<Seq<char>>;

/// A text as Rust's `Debug` shows a string: quoted, with escapes.
pub uninterp spec fn debug_quoted_of(s: Seq<char>) -> Seq<char>;

/// Relies on `httpdate::fmt_http_date`, which panics from the year 10000 on
/// and always writes 29 characters.
#[verifier::external_body]
fn http_date(secs: u64) -> (r: String)
    requires
        secs < HTTP_DATE_LIMIT,
    ensures
        r@ == http_date_of(secs),
        r@.len() == 29,
{
    httpdate::fmt_http_date(std::time::UNIX_EPOCH + std::time::Duration::from_secs(secs))
}

/// Relies on `url::Url::parse` and `url::Url::host_str`: the host of a URL.
#[verifier::external_body]
fn url_host(u: &str) -> (r: Option<String>)
    ensures
        r matches Some(h) ==> url_host_of(u@) == Some(h@),
        r is None ==> url_host_of(u@) is None,
{
    url::Url::parse(u).ok().and_then(|p| p.host_str().map(|h| h.to_owned()))
}

/// Relies on `<str as Debug>::fmt`: the text quoted as Rust shows it;
/// printable ASCII other than `"` and `\` is written as it is.
#[verifier::external_body]
fn debug_quoted(s: &str) -> (r: String)
    ensures
        r@ == debug_quoted_of(s@),
        plain_text(s@) ==> r@ == quoted(s@),
{
    format!("{:?}", s)
}

pub open spec fn warning_name() -> Seq<char> {
    seq!['w', 'a', 'r', 'n', 'i', 'n', 'g']
}

pub open spec fn cache_control_name() -> Seq<char> {
    seq!['c', 'a', 'c', 'h', 'e', '-', 'c', 'o', 'n', 't', 'r', 'o', 'l']
}

pub open spec fn must_revalidate_token() -> Seq<char> {
    seq!['m', 'u', 's', 't', '-', 'r', 'e', 'v', 'a', 'l', 'i', 'd', 'a', 't', 'e']
}

pub open spec fn is_digit(c: char) -> bool {
    '0' <= c && c <= '9'
}

pub open spec fn digit_char(d: int) -> char {
    ((48 + d) as u8) as char
}

pub open spec fn digit_value(c: char) -> int {
    (c as u32) - 48
}

/// The code that a `Warning` value begins with: its first three characters,
/// when all three are ASCII digits.
pub open spec fn code_of_value(v: Seq<char>) -> Option<int> {
    if v.len() >= 3 && is_digit(v[0]) && is_digit(v[1]) && is_digit(v[2]) {
        Some(digit_value(v[0]) * 100 + digit_value(v[1]) * 10 + digit_value(v[2]))
    } else {
        None
    }
}

/// The code of the last `Warning` field, the one added most recently.
pub open spec fn warning_code_of(h: Seq<Field>) -> Option<int> {
    match last_lookup(h, warning_name()) {
        Some(v) => code_of_value(v),
        None => None,
    }
}

/// Text that `Debug` shows unchanged between quotes: printable ASCII other
/// than `"` and `\`.
pub open spec fn plain_text(s: Seq<char>) -> bool {
    forall|i: int|
        0 <= i < s.len() ==> ' ' <= #[trigger] s[i] && s[i] <= '~' && s[i] != '"' && s[i] != '\\'
}

pub open spec fn quoted(s: Seq<char>) -> Seq<char> {
    seq!['"'] + s + seq!['"']
}

/// Whether the `Cache-Control` field asks for revalidation, in any casing.
pub open spec fn must_revalidate_of(h: Seq<Field>) -> bool {
    match lookup(h, cache_control_name()) {
        Some(v) => has_element(v, must_revalidate_token()),
        None => false,
    }
}

pub open spec fn three_digits(code: int) -> Seq<char> {
    seq![digit_char(code / 100), digit_char((code / 10) % 10), digit_char(code % 10)]
}

/// The value of a `Warning` field: code, agent, quoted text and quoted date.
pub open spec fn warning_value(code: int, host: Seq<char>, message: Seq<char>, secs: u64) -> Seq<
    char,
> {
    three_digits(code) + seq![' '] + host + seq![' '] + debug_quoted_of(message) + seq![' ', '"']
        + http_date_of(secs) + seq!['"']
}

proof fn lemma_literal_names()
    ensures
        lower("warning"@) == warning_name(),
        lower("cache-control"@) == cache_control_name(),
        "must-revalidate"@ == must_revalidate_token(),
{
    reveal_strlit("warning");
    reveal_strlit("cache-control");
    reveal_strlit("must-revalidate");
    assert(lower("warning"@) =~= warning_name());
    assert(lower("cache-control"@) =~= cache_control_name());
    assert("must-revalidate"@ =~= must_revalidate_token());
}

fn is_digit_exec(c: char) -> (r: bool)
    ensures
        r == is_digit(c),
{
    '0' <= c && c <= '9'
}

/// Reads the code that a `Warning` value begins with.
pub fn warning_value_code(v: &str) -> (r: Option<usize>)
    ensures
        r matches Some(c) ==> code_of_value(v@) == Some(c as int),
        r is None ==> code_of_value(v@) is None,
{
    if v.unicode_len() < 3 {
        return None;
    }
    let a = v.get_char(0);
    let b = v.get_char(1);
    let c = v.get_char(2);
    if is_digit_exec(a) && is_digit_exec(b) && is_digit_exec(c) {
        let n = ((a as u32) - 48) * 100 + ((b as u32) - 48) * 10 + ((c as u32) - 48);
        Some(n as usize)
    } else {
        None
    }
}

/// Reads the code of the last `Warning` field, if it has one.
pub fn get_warning_code(res: &HttpResponse) -> (r: Option<usize>)
    ensures
        r matches Some(c) ==> warning_code_of(res.headers@) == Some(c as int),
        r is None ==> warning_code_of(res.headers@) is None,
{
    proof {
        lemma_literal_names();
    }
    match res.headers.get_last("warning") {
        Some(v) => warning_value_code(v.as_str()),
        None => None,
    }
}

/// Whether the response's `Cache-Control` field holds `must-revalidate`,
/// in any casing.
pub fn must_revalidate(res: &HttpResponse) -> (r: bool)
    ensures
        r == must_revalidate_of(res.headers@),
{
    proof {
        lemma_literal_names();
    }
    match res.headers.get("cache-control") {
        Some(v) => {
            proof {
                assert(lower(must_revalidate_token()) =~= must_revalidate_token());
            }
            has_list_element(v.as_str(), "must-revalidate")
        },
        None => false,
    }
}

fn push_digit(s: &mut String, d: usize)
    requires
        d < 10,
    ensures
        final(s)@ == old(s)@.push(digit_char(d as int)),
{
    push_char(s, ((48 + d) as u8) as char);
}

/// Appends a `Warning` field signed with the host of `url` and dated `now`
/// (seconds since the epoch); fails, changing nothing, when `url` has no host
/// or `now` has no HTTP-date.
pub fn add_warning(res: &mut HttpResponse, url: &str, code: usize, message: &str, now: u64) -> (r:
    Result<(), CacheError>)
    requires
        code <= 999,
    ensures
        r is Err <==> (url_host_of(url@) is None || now >= HTTP_DATE_LIMIT),
        url_host_of(url@) is None ==> r == Err::<(), CacheError>(CacheError::InvalidUrl),
        url_host_of(url@) is Some && now >= HTTP_DATE_LIMIT ==> r == Err::<(), CacheError>(
            CacheError::DateOutOfRange,
        ),
        r is Err ==> *final(res) == *old(res),
        r is Ok ==> final(res).headers@ == old(res).headers@.push(
            (warning_name(), warning_value(code as int, url_host_of(url@)->0, message@, now)),
        ),
        r is Ok && plain_text(message@) ==> debug_quoted_of(message@) == quoted(message@),
        final(res).status == old(res).status,
        final(res).body == old(res).body,
        final(res).url == old(res).url,
        final(res).version == old(res).version,
{
    let host = match url_host(url) {
        Some(h) => h,
        None => {
            return Err(CacheError::InvalidUrl);
        },
    };
    if now >= HTTP_DATE_LIMIT {
        return Err(CacheError::DateOutOfRange);
    }
    let mut v = String::new();
    push_digit(&mut v, code / 100);
    push_digit(&mut v, (code / 10) % 10);
    push_digit(&mut v, code % 10);
    push_char(&mut v, ' ');
    v.append(host.as_str());
    push_char(&mut v, ' ');
    let quoted = debug_quoted(message);
    v.append(quoted.as_str());
    push_char(&mut v, ' ');
    push_char(&mut v, '"');
    let date = http_date(now);
    v.append(date.as_str());
    push_char(&mut v, '"');
    assert(v@ =~= warning_value(code as int, host@, message@, now));
    proof {
        lemma_literal_names();
    }
    res.headers.append("warning", v.as_str());
    Ok(())
}

} // verus!

verus! {

proof fn lemma_digit(d: int)
    requires
        0 <= d < 10,
    ensures
        is_digit(digit_char(d)),
        digit_value(digit_char(d)) == d,
        digit_char(d) != '+',
{
}

/// The code read back from a response is the code of the warning just
/// added to it, whatever warnings it held before.
pub proof fn lemma_warning_round_trip(
    h: Seq<Field>,
    code: int,
    host: Seq<char>,
    message: Seq<char>,
    secs: u64,
)
    requires
        0 <= code <= 999,
    ensures
        warning_code_of(h.push((warning_name(), warning_value(code, host, message, secs))))
            == Some(code),
{
    let v = warning_value(code, host, message, secs);
    let g = h.push((warning_name(), v));
    assert(g.last() == (warning_name(), v));
    lemma_digit(code / 100);
    lemma_digit((code / 10) % 10);
    lemma_digit(code % 10);
    assert(v[0] == digit_char(code / 100));
    assert(v[1] == digit_char((code / 10) % 10));
    assert(v[2] == digit_char(code % 10));
    assert((code / 100) * 100 + ((code / 10) % 10) * 10 + code % 10 == code) by (nonlinear_arith)
        requires
            0 <= code <= 999,
    ;
}

} // verus!

verus! {

proof fn lemma_opens(v: Seq<char>, i: int, a: int)
    requires
        0 <= i <= a <= v.len(),
        i == 0 || v[i - 1] == ',',
        forall|k: int| i <= k < a ==> is_ows(#[trigger] v[k]),
    ensures
        opens_element(v, a),
    decreases a - i,
{
    if a > i {
        assert(is_ows(v[a - 1]));
        lemma_opens(v, i, a - 1);
    }
}

proof fn lemma_closes(v: Seq<char>, b: int, j: int)
    requires
        0 <= b <= j <= v.len(),
        j == v.len() || v[j] == ',',
        forall|k: int| b <= k < j ==> is_ows(#[trigger] v[k]),
    ensures
        closes_element(v, b),
    decreases j - b,
{
    if b < j {
        assert(is_ows(v[b]));
        lemma_closes(v, b + 1, j);
    }
}

/// `must-revalidate` is found as a directive wherever it stands in the
/// `Cache-Control` list, however it is cased, with spaces or tabs around it.
pub proof fn lemma_must_revalidate_anywhere(
    h: Seq<Field>,
    before: Seq<char>,
    pad1: Seq<char>,
    token: Seq<char>,
    pad2: Seq<char>,
    after: Seq<char>,
)
    requires
        lookup(h, cache_control_name()) == Some(before + pad1 + token + pad2 + after),
        before.len() == 0 || before.last() == ',',
        after.len() == 0 || after[0] == ',',
        forall|k: int| 0 <= k < pad1.len() ==> is_ows(#[trigger] pad1[k]),
        forall|k: int| 0 <= k < pad2.len() ==> is_ows(#[trigger] pad2[k]),
        lower(token) == must_revalidate_token(),
    ensures
        must_revalidate_of(h),
{
    let v = before + pad1 + token + pad2 + after;
    let i = before.len() as int;
    let a = i + pad1.len();
    let b = a + token.len();
    let j = b + pad2.len();
    assert(v.subrange(a, b) =~= token);
    assert forall|k: int| i <= k < a implies is_ows(#[trigger] v[k]) by {
        assert(v[k] == pad1[k - i]);
    }
    assert forall|k: int| b <= k < j implies is_ows(#[trigger] v[k]) by {
        assert(v[k] == pad2[k - b]);
    }
    if i > 0 {
        assert(v[i - 1] == before.last());
    }
    if j < v.len() {
        assert(v[j] == after[0]);
    }
    lemma_opens(v, i, a);
    lemma_closes(v, b, j);
    assert(element_at(v, a, must_revalidate_token()));
}

} // verus!
