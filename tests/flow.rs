use reqwest_middleware_cache::{
    after_fetch, from_store, is_cacheable, on_freshness, on_lookup, on_revalidation,
    strip_informational_warnings, to_store, update_response_headers, CacheMode, Dispatch,
    Freshness, Headers, HttpRequest, HttpResponse, Outcome, StoreAction,
};

const NOW: u64 = 1_700_000_000;

fn request(method: &str, url: &str) -> HttpRequest {
    HttpRequest { method: method.to_string(), url: url.to_string(), headers: Headers::new() }
}

fn response(status: u16, body: &str) -> HttpResponse {
    HttpResponse {
        status,
        headers: Headers::new(),
        body: body.as_bytes().to_vec(),
        url: "https://example.com/resource".to_string(),
        version: "HTTP/1.1".to_string(),
    }
}

fn fields(pairs: &[(&str, &str)]) -> Headers {
    let mut h = Headers::new();
    for (n, v) in pairs {
        h.append(n, v);
    }
    h
}

fn values(h: &Headers, name: &str) -> Vec<String> {
    let mut out = Vec::new();
    for i in 0..h.len() {
        let (n, v) = h.field(i);
        if n == name {
            out.push(v);
        }
    }
    out
}

#[test]
fn cacheable_requests() {
    assert!(is_cacheable("GET", CacheMode::Default));
    assert!(is_cacheable("HEAD", CacheMode::ForceCache));
    assert!(!is_cacheable("POST", CacheMode::Default));
    assert!(!is_cacheable("GET", CacheMode::NoStore));
    assert!(!is_cacheable("GET", CacheMode::Reload));
    assert!(!is_cacheable("get", CacheMode::Default));
}

#[test]
fn only_if_cached_miss_is_gateway_timeout() {
    let mut req = request("GET", "https://example.com/resource");
    match on_lookup(CacheMode::OnlyIfCached, &mut req, None, NOW).unwrap() {
        Dispatch::Respond(res) => {
            assert_eq!(res.status, 504);
            assert!(res.body.is_empty());
        }
        _ => panic!("the network must not be asked"),
    }
}

#[test]
fn miss_fetches() {
    for mode in [CacheMode::Default, CacheMode::NoCache, CacheMode::ForceCache] {
        let mut req = request("GET", "https://example.com/resource");
        assert!(matches!(on_lookup(mode, &mut req, None, NOW), Ok(Dispatch::Fetch)));
    }
}

#[test]
fn fresh_hit_never_touches_network() {
    let mut req = request("GET", "https://example.com/resource");
    let cached = response(200, "v1");
    let mut cached = match on_lookup(CacheMode::Default, &mut req, Some(cached), NOW).unwrap() {
        Dispatch::Revalidate(c) => c,
        _ => panic!("a hit in the default mode is revalidated"),
    };
    let fresh = on_freshness(&mut cached, &mut req, Freshness::Fresh(fields(&[("age", "5")])));
    assert!(fresh);
    assert_eq!(cached.body, b"v1".to_vec());
    assert_eq!(cached.headers.get("Age"), Some("5".to_string()));
    assert_eq!(req.headers.len(), 0);
}

#[test]
fn no_cache_forces_revalidation() {
    let mut req = request("GET", "https://example.com/resource");
    req.headers.append("Cache-Control", "max-age=0");
    let d = on_lookup(CacheMode::NoCache, &mut req, Some(response(200, "v1")), NOW).unwrap();
    assert!(matches!(d, Dispatch::Revalidate(_)));
    assert_eq!(values(&req.headers, "cache-control"), vec!["no-cache".to_string()]);
}

#[test]
fn force_cache_serves_with_disconnected_warning() {
    for mode in [CacheMode::ForceCache, CacheMode::OnlyIfCached] {
        let mut req = request("GET", "https://example.com/resource");
        match on_lookup(mode, &mut req, Some(response(200, "v1")), NOW).unwrap() {
            Dispatch::Respond(res) => {
                assert_eq!(res.body, b"v1".to_vec());
                assert_eq!(
                    res.headers.get("warning"),
                    Some(
                        "112 example.com \"Disconnected operation\" \"Tue, 14 Nov 2023 22:13:20 GMT\""
                            .to_string()
                    )
                );
            }
            _ => panic!("the stored response is used"),
        }
    }
}

#[test]
fn stale_informational_warnings_are_dropped() {
    let mut res = response(200, "v1");
    res.headers.append("Warning", "110 example.com \"Response is stale\"");
    res.headers.append("Warning", "214 example.com \"Transformation applied\"");
    res.headers.append("Age", "3");
    res.headers.append("Warning", "113 example.com \"Heuristic expiration\"");
    strip_informational_warnings(&mut res);
    assert_eq!(
        values(&res.headers, "warning"),
        vec!["214 example.com \"Transformation applied\"".to_string()]
    );
    assert_eq!(res.headers.len(), 2);

    let mut res = response(200, "v1");
    res.headers.append("Warning", "214 example.com \"Transformation applied\"");
    res.headers.append("Warning", "199 example.com \"Misc\"");
    strip_informational_warnings(&mut res);
    assert_eq!(values(&res.headers, "warning").len(), 1);
}

#[test]
fn force_cache_keeps_2xx_warnings() {
    let mut req = request("GET", "https://example.com/resource");
    let mut cached = response(200, "v1");
    cached.headers.append("Warning", "110 example.com \"Response is stale\"");
    cached.headers.append("Warning", "214 example.com \"Transformation applied\"");
    match on_lookup(CacheMode::ForceCache, &mut req, Some(cached), NOW).unwrap() {
        Dispatch::Respond(res) => {
            let w = values(&res.headers, "warning");
            assert_eq!(w.len(), 2);
            assert_eq!(w[0], "214 example.com \"Transformation applied\"");
            assert!(w[1].starts_with("112 example.com"));
        }
        _ => panic!("the stored response is used"),
    }
}

#[test]
fn stale_304_is_reconciled() {
    let mut req = request("GET", "https://example.com/resource");
    let mut cached = response(200, "stored body");
    cached.headers.append("ETag", "\"v1\"");
    let verdict = Freshness::Stale {
        request_headers: fields(&[("if-none-match", "\"v1\"")]),
        matches: true,
    };
    assert!(!on_freshness(&mut cached, &mut req, verdict));
    assert_eq!(req.headers.get("If-None-Match"), Some("\"v1\"".to_string()));

    let mut answer = response(304, "");
    answer.headers.append("ETag", "\"v2\"");
    match on_revalidation(cached, &req, Ok(answer), NOW).unwrap() {
        Outcome::Store(mut res) => {
            assert_eq!(res.body, b"stored body".to_vec());
            assert_eq!(res.headers.get("etag"), Some("\"v2\"".to_string()));
            let parts = fields(&[("etag", "\"v2\""), ("cache-control", "max-age=60")]);
            update_response_headers(&mut res, &parts);
            assert_eq!(res.body, b"stored body".to_vec());
            assert_eq!(res.headers.get("cache-control"), Some("max-age=60".to_string()));
            assert_eq!(values(&res.headers, "etag").len(), 1);
        }
        _ => panic!("a 304 is stored"),
    }
}

#[test]
fn stale_matches_false_leaves_request() {
    let mut req = request("GET", "https://example.com/resource");
    let mut cached = response(200, "v1");
    let verdict = Freshness::Stale {
        request_headers: fields(&[("if-none-match", "\"v1\"")]),
        matches: false,
    };
    assert!(!on_freshness(&mut cached, &mut req, verdict));
    assert_eq!(req.headers.len(), 0);
}

#[test]
fn stale_on_error_fallback() {
    let req = request("GET", "https://example.com/resource");
    let cached = response(200, "v1");
    let answer: Result<HttpResponse, String> = Err("connection refused".to_string());
    match on_revalidation(cached, &req, answer, NOW).unwrap() {
        Outcome::Respond(res) => {
            assert_eq!(res.body, b"v1".to_vec());
            let w = values(&res.headers, "warning");
            assert_eq!(w.len(), 2);
            assert!(w[0].starts_with("111 example.com \"Revalidation failed\""));
            assert!(w[1].starts_with("199 example.com \"Miscellaneous Warning connection refused\""));
        }
        _ => panic!("the stale response is served"),
    }
}

#[test]
fn must_revalidate_propagates_error() {
    let req = request("GET", "https://example.com/resource");
    let mut cached = response(200, "v1");
    cached.headers.append("Cache-Control", "max-age=1, must-revalidate");
    let answer: Result<HttpResponse, String> = Err("timed out".to_string());
    assert!(matches!(on_revalidation(cached, &req, answer, NOW), Ok(Outcome::Fail)));
}

#[test]
fn server_error_with_must_revalidate_is_returned() {
    let req = request("GET", "https://example.com/resource");
    let mut cached = response(200, "v1");
    cached.headers.append("Cache-Control", "must-revalidate");
    match on_revalidation(cached, &req, Ok(response(503, "down")), NOW).unwrap() {
        Outcome::Respond(res) => {
            assert_eq!(res.status, 503);
            assert_eq!(res.body, b"down".to_vec());
        }
        _ => panic!("the server error is the answer"),
    }
}

#[test]
fn server_error_serves_stale_with_warning() {
    let req = request("GET", "https://example.com/resource");
    match on_revalidation(response(200, "v1"), &req, Ok(response(500, "oops")), NOW).unwrap() {
        Outcome::Respond(res) => {
            assert_eq!(res.status, 200);
            assert_eq!(res.body, b"v1".to_vec());
            let w = values(&res.headers, "warning");
            assert_eq!(w.len(), 1);
            assert!(w[0].starts_with("111 "));
        }
        _ => panic!("the stale response is served"),
    }
}

#[test]
fn other_status_returns_cached() {
    let req = request("GET", "https://example.com/resource");
    match on_revalidation(response(200, "v1"), &req, Ok(response(200, "v2")), NOW).unwrap() {
        Outcome::Respond(res) => {
            assert_eq!(res.body, b"v1".to_vec());
            assert_eq!(res.headers.len(), 0);
        }
        _ => panic!("the stored response is kept"),
    }
}

#[test]
fn invalidate_on_write() {
    for m in ["POST", "PUT", "DELETE"] {
        assert_eq!(after_fetch(CacheMode::Default, m, 200, true), StoreAction::Invalidate);
        assert_eq!(after_fetch(CacheMode::Default, m, 201, false), StoreAction::Invalidate);
    }
}

#[test]
fn storable_answers() {
    assert_eq!(after_fetch(CacheMode::Default, "GET", 200, true), StoreAction::Store);
    assert_eq!(after_fetch(CacheMode::Reload, "HEAD", 200, true), StoreAction::Store);
    assert_eq!(after_fetch(CacheMode::NoStore, "GET", 200, true), StoreAction::Pass);
    assert_eq!(after_fetch(CacheMode::Default, "GET", 404, true), StoreAction::Pass);
    assert_eq!(after_fetch(CacheMode::Default, "GET", 200, false), StoreAction::Pass);
}

#[test]
fn end_to_end_example() {
    // First GET: nothing stored, so the network answers and the answer is kept.
    let mut req = request("GET", "https://example.com/resource");
    assert!(matches!(on_lookup(CacheMode::Default, &mut req, None, NOW), Ok(Dispatch::Fetch)));
    let mut first = response(200, "v1");
    first.headers.append("Cache-Control", "max-age=86400, public");
    assert_eq!(after_fetch(CacheMode::Default, "GET", first.status, true), StoreAction::Store);
    let record = to_store(&first).unwrap();

    // Second GET within the freshness window: answered from the store.
    let mut req = request("GET", "https://example.com/resource");
    let mut hit = match on_lookup(CacheMode::Default, &mut req, Some(from_store(&record)), NOW) {
        Ok(Dispatch::Revalidate(c)) => c,
        _ => panic!("a stored response is revalidated"),
    };
    assert!(on_freshness(&mut hit, &mut req, Freshness::Fresh(Headers::new())));
    assert_eq!(hit.body, b"v1".to_vec());

    // Stale now: the origin answers 304 without a body.
    let mut req = request("GET", "https://example.com/resource");
    let mut stale = match on_lookup(CacheMode::Default, &mut req, Some(from_store(&record)), NOW) {
        Ok(Dispatch::Revalidate(c)) => c,
        _ => panic!("a stored response is revalidated"),
    };
    let verdict = Freshness::Stale { request_headers: Headers::new(), matches: false };
    assert!(!on_freshness(&mut stale, &mut req, verdict));
    match on_revalidation(stale, &req, Ok(response(304, "")), NOW).unwrap() {
        Outcome::Store(mut res) => {
            update_response_headers(&mut res, &fields(&[("cache-control", "max-age=86400, public")]));
            let again = from_store(&to_store(&res).unwrap());
            assert_eq!(again.body, b"v1".to_vec());
            assert_eq!(again.headers.get("cache-control"), Some("max-age=86400, public".to_string()));
        }
        _ => panic!("a 304 is stored"),
    }
}

#[test]
fn revalidating_modes_need_no_date() {
    let mut req = request("GET", "https://example.com/resource");
    let d = on_lookup(CacheMode::Default, &mut req, Some(response(200, "v1")), u64::MAX);
    assert!(matches!(d, Ok(Dispatch::Revalidate(_))));
    let mut req = request("GET", "https://example.com/resource");
    let d = on_lookup(CacheMode::OnlyIfCached, &mut req, None, u64::MAX);
    assert!(matches!(d, Ok(Dispatch::Respond(_))));
}
