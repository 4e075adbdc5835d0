use http_cache_core::engine::{
    after_revalidation, decide_lookup, is_cacheable_request, revalidation_request, store_action,
    CacheMode, Lookup, Revalidation, StoreAction,
};
use http_cache_core::message::{Header, HttpRequest, HttpResponse, Method};
use http_cache_core::store::{from_store, req_key, to_store, CACacheManager};
use http_cache_core::warning::{
    build_warning, get_warning_code, must_revalidate, parse_decimal, strip_informational_warnings,
    CacheError,
};

const NOW: u64 = 784111777;

fn request(method: Method, url: &str) -> HttpRequest {
    HttpRequest { method, url: url.to_string(), headers: Vec::new() }
}

fn header(name: &str, value: &str) -> Header {
    Header { name: name.as_bytes().to_vec(), value: value.as_bytes().to_vec() }
}

fn response(status: u16, headers: Vec<Header>, body: &str) -> HttpResponse {
    HttpResponse { status, headers, body: body.as_bytes().to_vec() }
}

fn values(res: &HttpResponse, name: &str) -> Vec<String> {
    res.headers
        .iter()
        .filter(|h| h.name.eq_ignore_ascii_case(name.as_bytes()))
        .map(|h| String::from_utf8(h.value.clone()).unwrap())
        .collect()
}

#[test]
fn can_get_warning_code() {
    let value = build_warning("https://example.com", 111, b"Revalidation failed", NOW).unwrap();
    let res = response(200, vec![Header { name: b"Warning".to_vec(), value }], "");
    let code = get_warning_code(&res).unwrap();
    assert_eq!(code, 111)
}

#[test]
fn can_check_revalidate() {
    let res = response(200, vec![header("Cache-Control", "max-age=1733992, must-revalidate")], "");
    let check = must_revalidate(&res);
    assert_eq!(check, true)
}

#[test]
fn can_cache_response() {
    let res = response(200, Vec::new(), "test");
    let stored = to_store(&res);
    let back = from_store(&stored);
    assert_eq!(&back.body, b"test");
    let manager = CACacheManager::default();
    assert_eq!(manager.path, "./surf-cacache");
}

#[test]
fn warning_value_has_host_code_text_and_date() {
    let value = build_warning("https://example.com/a?b", 112, b"Disconnected operation", NOW).unwrap();
    assert_eq!(
        String::from_utf8(value).unwrap(),
        "example.com 112 \"Disconnected operation\" \"Sun, 06 Nov 1994 08:49:37 GMT\""
    );
}

#[test]
fn warning_date_at_epoch() {
    let value = build_warning("http://h", 199, b"x", 0).unwrap();
    assert_eq!(String::from_utf8(value).unwrap(), "h 199 \"x\" \"Thu, 01 Jan 1970 00:00:00 GMT\"");
}

#[test]
fn warning_text_is_escaped() {
    let value = build_warning("http://h", 199, b"a\"b\\c", 0).unwrap();
    assert_eq!(
        String::from_utf8(value).unwrap(),
        "h 199 \"a\\\"b\\\\c\" \"Thu, 01 Jan 1970 00:00:00 GMT\""
    );
}

#[test]
fn warning_needs_a_host() {
    assert_eq!(build_warning("/relative", 111, b"x", NOW), Err(CacheError::MalformedWarningValue));
}

#[test]
fn warning_code_absent_or_unreadable() {
    assert_eq!(get_warning_code(&response(200, Vec::new(), "")), None);
    let res = response(200, vec![header("warning", "agent")], "");
    assert_eq!(get_warning_code(&res), None);
    let res = response(200, vec![header("WARNING", "  agent   +214 \"x\"")], "");
    assert_eq!(get_warning_code(&res), Some(214));
    let res = response(200, vec![header("warning", "agent -1")], "");
    assert_eq!(get_warning_code(&res), None);
}

#[test]
fn decimal_parsing_edges() {
    assert_eq!(parse_decimal(b"0"), Some(0));
    assert_eq!(parse_decimal(b"+7"), Some(7));
    assert_eq!(parse_decimal(b"+"), None);
    assert_eq!(parse_decimal(b""), None);
    assert_eq!(parse_decimal(b"12a"), None);
    assert_eq!(parse_decimal(b"18446744073709551615"), Some(usize::MAX));
    assert_eq!(parse_decimal(b"18446744073709551616"), None);
}

#[test]
fn must_revalidate_ignores_case_and_position() {
    let res = response(200, vec![header("cache-control", "max-age=0, MUST-Revalidate")], "");
    assert!(must_revalidate(&res));
    let res = response(200, vec![header("Cache-Control", "no-cache")], "");
    assert!(!must_revalidate(&res));
    let res = response(200, vec![header("Cache-Control", "must-revalidat")], "");
    assert!(!must_revalidate(&res));
    assert!(!must_revalidate(&response(200, Vec::new(), "")));
}

#[test]
fn informational_warning_is_stripped() {
    let mut res = response(
        200,
        vec![header("Warning", "example.com 110 \"Response is stale\""), header("a", "b"), header("warning", "x 214 \"y\"")],
        "body",
    );
    strip_informational_warnings(&mut res);
    assert!(values(&res, "warning").is_empty());
    assert_eq!(res.headers.len(), 1);
    assert_eq!(res.body, b"body");
}

#[test]
fn transformation_warning_is_kept() {
    let mut res = response(200, vec![header("Warning", "example.com 214 \"Transformation applied\"")], "");
    strip_informational_warnings(&mut res);
    assert_eq!(values(&res, "warning").len(), 1);
}

#[test]
fn other_methods_skip_the_store_and_invalidate() {
    for mode in [CacheMode::Default, CacheMode::NoCache, CacheMode::ForceCache, CacheMode::OnlyIfCached] {
        let req = request(Method::Post, "https://example.com/x");
        assert!(!is_cacheable_request(&req, mode));
        assert_eq!(store_action(mode, &req, 200), StoreAction::Delete);
        assert_eq!(store_action(mode, &req, 500), StoreAction::Delete);
    }
    let req = request(Method::Other(b"PURGE".to_vec()), "https://example.com/x");
    assert_eq!(store_action(CacheMode::Default, &req, 200), StoreAction::Delete);
}

#[test]
fn store_decisions_for_get() {
    let req = request(Method::Get, "https://example.com/");
    assert!(is_cacheable_request(&req, CacheMode::Default));
    assert!(!is_cacheable_request(&req, CacheMode::NoStore));
    assert!(!is_cacheable_request(&req, CacheMode::Reload));
    assert_eq!(store_action(CacheMode::Default, &req, 200), StoreAction::Put);
    assert_eq!(store_action(CacheMode::Reload, &req, 200), StoreAction::Put);
    assert_eq!(store_action(CacheMode::NoStore, &req, 200), StoreAction::Keep);
    assert_eq!(store_action(CacheMode::Default, &req, 404), StoreAction::Keep);
}

#[test]
fn only_if_cached_miss_is_not_cached() {
    let req = request(Method::Get, "https://example.com/");
    assert!(matches!(decide_lookup(CacheMode::OnlyIfCached, &req, None, false, NOW), Lookup::NotCached));
    assert!(matches!(decide_lookup(CacheMode::Default, &req, None, false, NOW), Lookup::Fetch));
}

#[test]
fn fresh_entry_is_served_as_stored() {
    let req = request(Method::Get, "https://example.com/");
    let stored = response(200, vec![header("etag", "\"1\"")], "cached");
    match decide_lookup(CacheMode::Default, &req, Some(stored), true, NOW) {
        Lookup::Serve(res) => {
            assert_eq!(res.body, b"cached");
            assert_eq!(values(&res, "etag"), vec!["\"1\""]);
            assert!(values(&res, "warning").is_empty());
        }
        _ => panic!("expected the stored response"),
    }
}

#[test]
fn stale_entry_is_revalidated_without_1xx_warning() {
    let req = request(Method::Get, "https://example.com/");
    let stored = response(200, vec![header("warning", "example.com 111 \"Revalidation failed\"")], "old");
    match decide_lookup(CacheMode::Default, &req, Some(stored), false, NOW) {
        Lookup::Revalidate(res) => assert!(values(&res, "warning").is_empty()),
        _ => panic!("expected a revalidation"),
    }
}

#[test]
fn no_cache_fetches_even_when_stored() {
    let req = request(Method::Get, "https://example.com/");
    let stored = response(200, Vec::new(), "old");
    assert!(matches!(decide_lookup(CacheMode::NoCache, &req, Some(stored), true, NOW), Lookup::Fetch));
}

#[test]
fn force_cache_adds_one_disconnected_warning() {
    let req = request(Method::Get, "https://example.com/");
    let stored = response(200, vec![header("a", "1")], "old");
    match decide_lookup(CacheMode::ForceCache, &req, Some(stored), false, NOW) {
        Lookup::Serve(res) => {
            let w = values(&res, "warning");
            assert_eq!(w.len(), 1);
            assert_eq!(get_warning_code(&res), Some(112));
            assert_eq!(res.headers.len(), 2);
            assert_eq!(res.body, b"old");
        }
        _ => panic!("expected the stored response"),
    }
}

#[test]
fn only_if_cached_hit_adds_disconnected_warning() {
    let req = request(Method::Head, "https://example.com/");
    let stored = response(200, Vec::new(), "");
    match decide_lookup(CacheMode::OnlyIfCached, &req, Some(stored), true, NOW) {
        Lookup::Serve(res) => assert_eq!(get_warning_code(&res), Some(112)),
        _ => panic!("expected the stored response"),
    }
}

#[test]
fn revalidation_request_sets_validators() {
    let mut req = request(Method::Get, "https://example.com/");
    req.headers = vec![header("accept", "*/*"), header("If-None-Match", "\"0\"")];
    let r = revalidation_request(&req, &vec![header("if-none-match", "\"1\""), header("if-modified-since", "x")]);
    assert_eq!(r.url, "https://example.com/");
    assert_eq!(values(&r_as_response(&r), "if-none-match"), vec!["\"1\""]);
    assert_eq!(values(&r_as_response(&r), "if-modified-since"), vec!["x"]);
    assert_eq!(values(&r_as_response(&r), "accept"), vec!["*/*"]);
}

fn r_as_response(r: &HttpRequest) -> HttpResponse {
    HttpResponse {
        status: 0,
        headers: r.headers.iter().map(|h| Header { name: h.name.clone(), value: h.value.clone() }).collect(),
        body: Vec::new(),
    }
}

#[test]
fn not_modified_merges_new_headers_over_old_body() {
    let req = request(Method::Get, "https://example.com/");
    let cached = response(200, vec![header("etag", "\"1\""), header("x-old", "1")], "payload");
    let new = response(304, vec![header("etag", "\"1\""), header("date", "now")], "");
    match after_revalidation(&req, cached, Ok(new), NOW) {
        Revalidation::Store(res) => {
            assert_eq!(res.body, b"payload");
            assert_eq!(res.status, 304);
            assert_eq!(values(&res, "date"), vec!["now"]);
            assert!(values(&res, "x-old").is_empty());
        }
        _ => panic!("expected a merged response to store"),
    }
}

#[test]
fn unreachable_origin_serves_stale_with_two_warnings() {
    let req = request(Method::Get, "https://example.com/");
    let cached = response(200, vec![header("cache-control", "max-age=0")], "stale");
    match after_revalidation(&req, cached, Err(b"connection refused".to_vec()), NOW) {
        Revalidation::Serve(res) => {
            let w = values(&res, "warning");
            assert_eq!(w.len(), 2);
            assert!(w[0].starts_with("example.com 111 \"Revalidation failed\""));
            assert!(w[1].starts_with("example.com 199 \"Miscellaneous Warning connection refused\""));
            assert_eq!(res.body, b"stale");
        }
        _ => panic!("expected the stale response"),
    }
}

#[test]
fn unreachable_origin_with_must_revalidate_fails() {
    let req = request(Method::Get, "https://example.com/");
    let cached = response(200, vec![header("cache-control", "must-revalidate")], "stale");
    assert!(matches!(after_revalidation(&req, cached, Err(b"down".to_vec()), NOW), Revalidation::Fail));
}

#[test]
fn server_error_with_must_revalidate_serves_stale() {
    let req = request(Method::Get, "https://example.com/");
    let cached = response(200, vec![header("cache-control", "must-revalidate")], "stale");
    let new = response(503, Vec::new(), "");
    match after_revalidation(&req, cached, Ok(new), NOW) {
        Revalidation::Serve(res) => {
            assert_eq!(res.body, b"stale");
            assert_eq!(get_warning_code(&res), Some(111));
        }
        _ => panic!("expected the stale response"),
    }
}

#[test]
fn other_answer_replaces_the_stale_response() {
    let req = request(Method::Get, "https://example.com/");
    let cached = response(200, Vec::new(), "stale");
    let new = response(503, Vec::new(), "error page");
    match after_revalidation(&req, cached, Ok(new), NOW) {
        Revalidation::Serve(res) => {
            assert_eq!(res.status, 503);
            assert_eq!(res.body, b"error page");
        }
        _ => panic!("expected the new response"),
    }
}

#[test]
fn store_round_trip_keeps_status_headers_and_body() {
    for body in ["", "some bytes"] {
        let res = response(200, vec![header("content-type", "text/plain"), header("etag", "\"2\"")], body);
        let back = from_store(&to_store(&res));
        assert_eq!(back.status, 200);
        assert_eq!(back.body, body.as_bytes());
        assert_eq!(back.headers.len(), 2);
        assert_eq!(values(&back, "content-type"), vec!["text/plain"]);
        assert_eq!(values(&back, "etag"), vec!["\"2\""]);
    }
}

#[test]
fn store_keeps_repeated_headers_in_order() {
    let res = response(200, vec![header("set-cookie", "a=1"), header("Set-Cookie", "b=2"), header("b", "3")], "");
    let back = from_store(&to_store(&res));
    assert_eq!(back.headers.len(), 3);
    assert_eq!(back.headers[0].value, b"a=1");
    assert_eq!(back.headers[1].name, b"Set-Cookie");
    assert_eq!(back.headers[1].value, b"b=2");
    assert_eq!(back.headers[2].value, b"3");
}

#[test]
fn store_keeps_the_status_of_a_merged_304() {
    let res = response(304, vec![header("etag", "\"1\"")], "payload");
    let back = from_store(&to_store(&res));
    assert_eq!(back.status, 304);
    assert_eq!(back.body, b"payload");
}

#[test]
fn warning_code_in_rfc_order() {
    let res = response(200, vec![header("Warning", "110 proxy.example \"Response is stale\"")], "");
    assert_eq!(get_warning_code(&res), Some(110));
    let res = response(200, vec![header("Warning", "214 - \"Transformation applied\"")], "");
    assert_eq!(get_warning_code(&res), Some(214));
}

#[test]
fn rfc_order_1xx_warning_is_stripped() {
    let req = request(Method::Get, "https://example.com/");
    let stored = response(200, vec![header("Warning", "110 proxy.example \"Response is stale\""), header("a", "b")], "x");
    match decide_lookup(CacheMode::Default, &req, Some(stored), true, NOW) {
        Lookup::Serve(res) => {
            assert!(values(&res, "warning").is_empty());
            assert_eq!(values(&res, "a"), vec!["b"]);
        }
        _ => panic!("expected the stored response"),
    }
}

#[test]
fn warning_text_control_and_non_ascii_bytes_are_escaped() {
    let value = build_warning("http://h", 199, "line\nbreak \u{e9}".as_bytes(), 0).unwrap();
    assert_eq!(
        String::from_utf8(value.clone()).unwrap(),
        "h 199 \"line\\x0abreak \\xc3\\xa9\" \"Thu, 01 Jan 1970 00:00:00 GMT\""
    );
    assert!(value.iter().all(|b| (32..127).contains(b)));
}

#[test]
fn key_is_method_and_uri_without_fragment() {
    let req = request(Method::Get, "https://example.com/a?b=1#top");
    assert_eq!(req_key(&req), b"GET:https://example.com/a?b=1");
    let req = request(Method::Other(b"PURGE".to_vec()), "https://example.com/");
    assert_eq!(req_key(&req), b"PURGE:https://example.com/");
    let req = request(Method::Head, "https://example.com/");
    assert_eq!(req_key(&req), b"HEAD:https://example.com/");
}
