use reqwest_middleware_cache::{
    from_store, req_key, to_store, CACacheManager, CacheError, Headers, HttpRequest, HttpResponse,
    HttpVersion,
};

fn response(body: &str, version: &str) -> HttpResponse {
    HttpResponse {
        status: 200,
        headers: Headers::new(),
        body: body.as_bytes().to_vec(),
        url: "https://example.com/".to_string(),
        version: version.to_string(),
    }
}

#[test]
fn can_cache_response() {
    let res = response("test", "HTTP/1.1");
    let record = to_store(&res).unwrap();
    let back = from_store(&record);
    assert_eq!(String::from_utf8(back.body).unwrap(), "test");
    assert_eq!(back.status, 200);
    assert_eq!(back.url, "https://example.com/");
    assert_eq!(back.version, "HTTP/1.1");
}

#[test]
fn record_keeps_last_value_per_name() {
    let mut res = response("x", "HTTP/2.0");
    res.headers.append("Set-Cookie", "a=1");
    res.headers.append("Content-Type", "text/plain");
    res.headers.append("set-cookie", "b=2");
    let record = to_store(&res).unwrap();
    assert_eq!(record.version, HttpVersion::H2);
    assert_eq!(record.headers.len(), 2);
    assert_eq!(record.headers.get("set-cookie"), Some("b=2".to_string()));
    let back = from_store(&record);
    assert_eq!(back.headers.get("Content-Type"), Some("text/plain".to_string()));
    assert_eq!(back.headers.len(), 2);
}

#[test]
fn unknown_version_is_refused() {
    let res = response("x", "HTTP/4.0");
    assert!(matches!(to_store(&res), Err(CacheError::UnknownHttpVersion)));
    assert_eq!(HttpVersion::from_wire("http/1.1"), Err(CacheError::UnknownHttpVersion));
}

#[test]
fn versions_round_trip() {
    for v in [
        HttpVersion::Http09,
        HttpVersion::Http10,
        HttpVersion::Http11,
        HttpVersion::H2,
        HttpVersion::H3,
    ] {
        assert_eq!(HttpVersion::from_wire(&v.to_wire()), Ok(v));
    }
    assert_eq!(HttpVersion::Http10.to_wire(), "HTTP/1.0");
    assert_eq!(HttpVersion::H3.to_wire(), "HTTP/3.0");
}

#[test]
fn request_key() {
    let req = HttpRequest {
        method: "GET".to_string(),
        url: "https://example.com/".to_string(),
        headers: Headers::new(),
    };
    assert_eq!(req_key(&req), "GET:https://example.com/");
}

#[test]
fn default_manager_path() {
    assert_eq!(CACacheManager::default().path, "./reqwest-cacache");
    assert_eq!(CACacheManager::new("/tmp/c").path, "/tmp/c");
}

#[test]
fn write_invalidates_get_key() {
    let write = HttpRequest {
        method: "POST".to_string(),
        url: "https://example.com/resource".to_string(),
        headers: Headers::new(),
    };
    let read = reqwest_middleware_cache::invalidation_request(&write);
    assert_eq!(read.method, "GET");
    assert_eq!(req_key(&read), "GET:https://example.com/resource");
}
