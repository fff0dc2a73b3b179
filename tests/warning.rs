use reqwest_middleware_cache::{
    add_warning, get_warning_code, must_revalidate, CacheError, Headers, HttpResponse,
};

const NOW: u64 = 1_700_000_000;

fn response(body: &str) -> HttpResponse {
    HttpResponse {
        status: 200,
        headers: Headers::new(),
        body: body.as_bytes().to_vec(),
        url: "https://example.com/".to_string(),
        version: "HTTP/1.1".to_string(),
    }
}

fn with_warning(value: &str) -> HttpResponse {
    let mut res = response("");
    res.headers.append("Warning", value);
    res
}

#[test]
fn can_get_warning_code() {
    let mut res = response("");
    add_warning(&mut res, "https://example.com", 111, "Revalidation failed", NOW).unwrap();
    let code = get_warning_code(&res).unwrap();
    assert_eq!(code, 111);
}

#[test]
fn can_check_revalidate() {
    let mut res = response("");
    res.headers.append("Cache-Control", "max-age=1733992, must-revalidate");
    let check = must_revalidate(&res);
    assert!(check, "{}", true)
}

#[test]
fn must_revalidate_ignores_case_and_order() {
    let mut res = response("");
    res.headers.append("CACHE-CONTROL", "MUST-Revalidate, max-age=5");
    assert!(must_revalidate(&res));
}

#[test]
fn must_revalidate_absent() {
    let mut res = response("");
    assert!(!must_revalidate(&res));
    res.headers.append("cache-control", "max-age=5, public");
    assert!(!must_revalidate(&res));
}

#[test]
fn warning_value_is_formatted() {
    let mut res = response("");
    add_warning(&mut res, "https://example.com/x", 112, "Disconnected operation", NOW).unwrap();
    assert_eq!(res.headers.len(), 1);
    let (name, value) = res.headers.field(0);
    assert_eq!(name, "warning");
    assert_eq!(
        value,
        "112 example.com \"Disconnected operation\" \"Tue, 14 Nov 2023 22:13:20 GMT\""
    );
}

#[test]
fn warning_quotes_message() {
    let mut res = response("");
    add_warning(&mut res, "http://127.0.0.1:8080/", 199, "say \"hi\"", 0).unwrap();
    let (_, value) = res.headers.field(0);
    assert_eq!(value, "199 127.0.0.1 \"say \\\"hi\\\"\" \"Thu, 01 Jan 1970 00:00:00 GMT\"");
}

#[test]
fn warning_needs_a_host() {
    let mut res = response("kept");
    let r = add_warning(&mut res, "not a url", 111, "Revalidation failed", NOW);
    assert_eq!(r, Err(CacheError::InvalidUrl));
    assert_eq!(res.headers.len(), 0);
    assert_eq!(res.body, b"kept".to_vec());
}

#[test]
fn warning_round_trip_codes() {
    for code in [0usize, 5, 42, 100, 111, 199, 214, 299, 999] {
        let mut res = response("");
        add_warning(&mut res, "https://example.com", code, "text", NOW).unwrap();
        assert_eq!(get_warning_code(&res), Some(code));
    }
}

#[test]
fn warning_code_reads_added_field() {
    let mut res = with_warning("214 example.com \"Transformation applied\"");
    assert_eq!(get_warning_code(&res), Some(214));
    add_warning(&mut res, "https://example.com", 111, "Revalidation failed", NOW).unwrap();
    assert_eq!(get_warning_code(&res), Some(111));
}

#[test]
fn warning_code_malformed() {
    assert_eq!(get_warning_code(&response("")), None);
    assert_eq!(get_warning_code(&with_warning("abc")), None);
    assert_eq!(get_warning_code(&with_warning("")), None);
    assert_eq!(get_warning_code(&with_warning("1 a")), None);
    assert_eq!(get_warning_code(&with_warning("+")), None);
    assert_eq!(get_warning_code(&with_warning("-12")), None);
}

#[test]
fn warning_code_needs_three_digits() {
    assert_eq!(get_warning_code(&with_warning("12")), None);
    assert_eq!(get_warning_code(&with_warning("+12 x")), None);
    assert_eq!(get_warning_code(&with_warning("0")), None);
    assert_eq!(get_warning_code(&with_warning("12a")), None);
    assert_eq!(get_warning_code(&with_warning("123abc")), Some(123));
    assert_eq!(get_warning_code(&with_warning("007")), Some(7));
}

#[test]
fn warning_date_out_of_range() {
    let mut res = response("kept");
    let r = add_warning(&mut res, "https://example.com", 111, "Revalidation failed", 253402300800);
    assert_eq!(r, Err(CacheError::DateOutOfRange));
    assert_eq!(res.headers.len(), 0);
    let r = add_warning(&mut res, "https://example.com", 111, "Revalidation failed", 253402300799);
    assert!(r.is_ok());
    let (_, value) = res.headers.field(0);
    assert!(value.ends_with("\"Fri, 31 Dec 9999 23:59:59 GMT\""));
}

#[test]
fn must_revalidate_needs_whole_directive() {
    for value in [
        "max-age=60, x-must-revalidate",
        "must-revalidated",
        "must-revalidate=1",
        "max-age=60 must-revalidate",
        "\"must-revalidate\"",
    ] {
        let mut res = response("");
        res.headers.append("Cache-Control", value);
        assert!(!must_revalidate(&res), "{}", value);
    }
}

#[test]
fn must_revalidate_trims_directives() {
    for value in ["max-age=60 ,\tMust-Revalidate ", "must-revalidate", "public,must-revalidate,max-age=1"] {
        let mut res = response("");
        res.headers.append("Cache-Control", value);
        assert!(must_revalidate(&res), "{}", value);
    }
}

#[test]
fn small_codes_are_zero_padded() {
    let mut res = response("");
    add_warning(&mut res, "https://example.com", 7, "x", NOW).unwrap();
    let (_, value) = res.headers.field(0);
    assert!(value.starts_with("007 example.com"));
    assert_eq!(get_warning_code(&res), Some(7));
}
