use thalora_browser_apis::fetch::cors::{
    check_preflight, custom_request_headers, is_cors_simple_request, needs_preflight, preflight_headers_allowed,
    preflight_method_allowed, request_headers_value, strict_cors_setting, CorsError,
};
use thalora_browser_apis::fetch::fetch::{
    complete_preflight, headers_from_pairs, lines, parse_header_lines, preflight_cache_host, response_type, same_origin,
    plan_fetch, preflight_request_failed, request_method, settle_fetch, TransportFailure, FetchError, FetchInit, FetchStep, InvalidUrl, JsonBodyError, Request,
    Response, ResponseData,
};
use thalora_browser_apis::fetch::headers::HeaderMap;
use thalora_browser_apis::fetch::preflight_cache::{parse_u64, preflight_max_age, PreflightCache};
use thalora_browser_apis::fetch::sw_fetch_intercept::{ServiceWorkerFetchHandler, SwFetchRegistry};
use thalora_browser_apis::fetch::websocket::{
    connect_target, validate_protocols, validate_url, Connection, PendingEvent, ReadyState, WebSocketError,
};
use thalora_browser_apis::fetch::wasm::{unavailable_message, BrowserApi};
use thalora_browser_apis::http_blocking::BlockingClientBuilder;
use thalora_browser_apis::http_module_loader::{HttpModuleLoader, ResolveError};

fn headers(pairs: &[(&str, &str)]) -> HeaderMap {
    let mut m = HeaderMap::new();
    for (k, v) in pairs {
        m.insert(k.to_string(), v.to_string());
    }
    m
}

#[test]
fn test_response_constructor_with_init() {
    let r = Response::construct(Some("test".to_string()), Some(404), Some("Not Found".to_string()));
    assert_eq!(r.status, 404);
    assert_eq!(r.status_text, "Not Found");
    assert_eq!(r.text(), "test");
}

#[test]
fn test_response_status_property() {
    let r = Response::construct(Some("test".to_string()), Some(404), None);
    assert_eq!(r.status, 404);
    assert_eq!(r.status_text, "");
}

#[test]
fn test_response_status_default() {
    let r = Response::construct(None, None, None);
    assert_eq!(r.status, 200);
    assert_eq!(r.status_text, "OK");
    assert_eq!(r.text(), "");
}

#[test]
fn test_response_status_text_property() {
    let r = Response::construct(Some("test".to_string()), None, Some("Custom Status".to_string()));
    assert_eq!(r.status_text, "Custom Status");
}

#[test]
fn test_response_ok_property_true() {
    assert!(Response::construct(Some("test".to_string()), Some(200), None).ok());
}

#[test]
fn test_response_ok_property_false() {
    assert!(!Response::construct(Some("test".to_string()), Some(404), None).ok());
}

#[test]
fn test_response_url_property() {
    assert_eq!(Response::construct(None, None, None).url, "");
}

#[test]
fn test_request_constructor_basic() {
    let r = Request::construct("https://example.com/api".to_string()).ok().unwrap();
    assert_eq!(r.method, "GET");
    assert_eq!(r.mode, "cors");
    assert_eq!(r.credentials, "same-origin");
    assert!(matches!(Request::construct("not a url".to_string()), Err(InvalidUrl::InvalidUrl)));
}

#[test]
fn test_headers_constructor_with_object() {
    let h = headers_from_pairs(&vec![
        ("Content-Type".to_string(), "text/plain".to_string()),
        ("X-A".to_string(), "1".to_string()),
        ("x-a".to_string(), "2".to_string()),
    ]);
    assert_eq!(h.get("content-type"), Some("text/plain"));
    assert_eq!(h.get("x-a"), Some("2"));
    assert_eq!(h.get("X-A"), None);
}

#[test]
fn test_fetch_with_init_object() {
    let f = FetchInit::from_options("post", HeaderMap::new(), Some("b".to_string()), None, None, "UA/1");
    assert_eq!(f.method, "POST");
    assert_eq!(f.headers.get("User-Agent"), Some("UA/1"));
    assert_eq!(f.mode, "cors");
    assert_eq!(f.credentials, "same-origin");
    let kept = FetchInit::from_options("GET", headers(&[("User-Agent", "mine")]), None, Some("no-cors".to_string()), Some("include".to_string()), "UA/1");
    assert_eq!(kept.headers.get("User-Agent"), Some("mine"));
    assert_eq!(kept.mode, "no-cors");
    let d = FetchInit::defaults();
    assert_eq!(d.method, "GET");
    assert_eq!(d.headers.len(), 0);
}

#[test]
fn simple_requests_need_no_preflight() {
    assert!(is_cors_simple_request("GET", &headers(&[("Accept", "*/*"), ("User-Agent", "x")])));
    assert!(is_cors_simple_request("POST", &headers(&[("Content-Type", "text/plain; charset=utf-8")])));
    assert!(!is_cors_simple_request("POST", &headers(&[("Content-Type", "application/json")])));
    assert!(!is_cors_simple_request("PUT", &HeaderMap::new()));
    assert!(!is_cors_simple_request("GET", &headers(&[("X-Custom", "1")])));
    assert!(needs_preflight("cors", "PUT", &HeaderMap::new(), false));
    assert!(!needs_preflight("cors", "PUT", &HeaderMap::new(), true));
    assert!(!needs_preflight("no-cors", "PUT", &HeaderMap::new(), false));
}

#[test]
fn preflight_announces_custom_headers() {
    let h = headers(&[("Accept", "a"), ("X-One", "1"), ("user-agent", "u"), ("X-Two", "2")]);
    let custom = custom_request_headers(&h);
    assert_eq!(custom, vec!["X-One".to_string(), "X-Two".to_string()]);
    assert_eq!(request_headers_value(&custom), "X-One, X-Two");
    assert_eq!(request_headers_value(&Vec::new()), "");
}

#[test]
fn preflight_response_checks() {
    assert!(preflight_method_allowed("put", "GET, Put"));
    assert!(preflight_method_allowed("DELETE", "*"));
    assert!(preflight_method_allowed("post", ""));
    assert!(!preflight_method_allowed("PUT", "GET,POST"));
    let custom = vec!["X-One".to_string()];
    assert!(preflight_headers_allowed(&custom, "x-one, x-two"));
    assert!(!preflight_headers_allowed(&custom, "x-two"));
    assert!(preflight_headers_allowed(&Vec::new(), "x-two"));
    assert_eq!(check_preflight(500, "PUT", None, None, &custom, true), Err(CorsError::Status(500)));
    assert_eq!(check_preflight(500, "PUT", None, None, &custom, false), Ok(()));
    assert_eq!(check_preflight(204, "PUT", Some("GET"), None, &custom, true), Err(CorsError::MethodNotAllowed));
    assert_eq!(check_preflight(204, "PUT", Some("PUT"), Some("x-other"), &custom, true), Err(CorsError::HeadersNotAllowed));
    assert_eq!(check_preflight(204, "PUT", Some("PUT"), Some("X-ONE"), &custom, true), Ok(()));
    assert!(strict_cors_setting(None));
    assert!(strict_cors_setting(Some("TRUE")));
    assert!(strict_cors_setting(Some("1")));
    assert!(!strict_cors_setting(Some("0")));
}

#[test]
fn max_age_parsing() {
    assert_eq!(parse_u64("600"), Some(600));
    assert_eq!(parse_u64("+7"), Some(7));
    assert_eq!(parse_u64("18446744073709551615"), Some(u64::MAX));
    assert_eq!(parse_u64("18446744073709551616"), None);
    assert_eq!(parse_u64(""), None);
    assert_eq!(parse_u64("+"), None);
    assert_eq!(parse_u64("-1"), None);
    assert_eq!(parse_u64("12a"), None);
    assert_eq!(preflight_max_age(Some("60")), 60);
    assert_eq!(preflight_max_age(Some("soon")), 5);
    assert_eq!(preflight_max_age(None), 5);
}

#[test]
fn preflight_cache_expires() {
    let mut c = PreflightCache::new();
    c.record("a.example".to_string(), "PUT".to_string(), 1_000, 5);
    assert!(c.is_fresh("a.example", "PUT", 1_000));
    assert!(c.is_fresh("a.example", "PUT", 5_999));
    assert!(!c.is_fresh("a.example", "PUT", 6_000));
    assert!(!c.is_fresh("a.example", "DELETE", 1_000));
    c.record("b.example".to_string(), "PUT".to_string(), 1_000, 0);
    assert!(!c.is_fresh("b.example", "PUT", 1_000));
    for i in 0..101u64 {
        c.record(format!("h{}", i), "GET".to_string(), 0, 1);
    }
    c.record("late.example".to_string(), "GET".to_string(), 10_000, 1);
    assert!(c.is_fresh("late.example", "GET", 10_500));
    assert!(c.len() <= 2);
}

#[test]
fn header_strings_parse_per_line() {
    assert_eq!(lines("a\r\nb\n"), vec!["a".to_string(), "b".to_string()]);
    assert_eq!(lines(""), Vec::<String>::new());
    let h = parse_header_lines("Accept: text/html\r\nX-A:  1 \nnot a header\nX-A: 2");
    assert_eq!(h.get("Accept"), Some("text/html"));
    assert_eq!(h.get("X-A"), Some("2"));
    assert_eq!(h.len(), 2);
}

#[test]
fn response_types_and_origins() {
    assert_eq!(response_type("no-cors", true), "opaque");
    assert_eq!(response_type("cors", true), "cors");
    assert_eq!(response_type("cors", false), "basic");
    assert!(same_origin("https://a.example/x", "https://a.example:443/y"));
    assert!(!same_origin("https://a.example", "http://a.example"));
    assert!(!same_origin("https://a.example", "https://a.example:8443"));
    assert!(!same_origin("not a url", "not a url"));
    assert_eq!(preflight_cache_host("https://a.example/x"), "a.example");
    assert_eq!(preflight_cache_host("junk"), "");
}

#[test]
fn service_worker_scope_choice() {
    let mut reg = SwFetchRegistry::new();
    reg.register_sw_fetch_handler(
        "https://a.example/".to_string(),
        ServiceWorkerFetchHandler { scope: "https://a.example/".to_string(), has_fetch_handler: true, dispatch_id: 1 },
    );
    reg.register_sw_fetch_handler(
        "https://a.example/app/".to_string(),
        ServiceWorkerFetchHandler { scope: "https://a.example/app/".to_string(), has_fetch_handler: true, dispatch_id: 2 },
    );
    reg.register_sw_fetch_handler(
        "https://a.example/app/quiet/".to_string(),
        ServiceWorkerFetchHandler { scope: "https://a.example/app/quiet/".to_string(), has_fetch_handler: false, dispatch_id: 3 },
    );
    assert_eq!(reg.find_controlling_sw("https://a.example/app/quiet/x"), Some("https://a.example/app/".to_string()));
    assert_eq!(reg.find_controlling_sw("https://a.example/other"), Some("https://a.example/".to_string()));
    assert_eq!(reg.find_controlling_sw("https://b.example/"), None);
    reg.unregister_sw_fetch_handler("https://a.example/app/");
    assert_eq!(reg.find_controlling_sw("https://a.example/app/x"), Some("https://a.example/".to_string()));
}

#[test]
fn websocket_validation_and_states() {
    assert_eq!(validate_url("wss://echo.example/"), Ok(()));
    assert_eq!(validate_url("https://echo.example/"), Err(WebSocketError::BadScheme));
    assert_eq!(validate_url("nope"), Err(WebSocketError::InvalidUrl));
    assert_eq!(validate_protocols(&vec!["chat".to_string(), "v2".to_string()]), Ok(()));
    assert_eq!(validate_protocols(&vec!["a b".to_string()]), Err(WebSocketError::InvalidSubprotocol));
    assert_eq!(validate_protocols(&vec!["".to_string()]), Err(WebSocketError::InvalidSubprotocol));
    assert_eq!(validate_protocols(&vec!["a".to_string(), "a".to_string()]), Err(WebSocketError::DuplicateSubprotocol));
    let mut c = Connection::new();
    assert_eq!(c.state.as_u16(), 0);
    assert!(!c.can_send());
    c.on_connected("chat".to_string());
    assert!(c.can_send());
    c.on_message("hi".to_string(), false);
    c.on_close_frame(None);
    assert_eq!(c.state, ReadyState::Closed);
    assert!(!c.close());
    let ev = c.take_pending_events();
    assert_eq!(ev.len(), 3);
    assert_eq!(ev[0], PendingEvent::Open);
    assert_eq!(ev[2], PendingEvent::Close { code: 1005, reason: String::new(), was_clean: true });
    assert!(c.take_pending_events().is_empty());
    let mut f = Connection::new();
    assert!(f.close());
    assert_eq!(f.state, ReadyState::Closing);
    f.on_failure("boom".to_string(), true);
    let ev = f.take_pending_events();
    assert_eq!(ev[1], PendingEvent::Close { code: 1006, reason: "Connection failed".to_string(), was_clean: false });
}

#[test]
fn wasm_build_messages() {
    assert_eq!(unavailable_message(BrowserApi::Fetch), "fetch() is not available in WASM. Use the browser's native fetch API.");
    assert_eq!(unavailable_message(BrowserApi::EventSource), "EventSource is not available in WASM. Use the browser's native EventSource.");
}

#[test]
fn blocking_client_builder_timeout() {
    let b = BlockingClientBuilder::new();
    assert!(b.timeout.is_none());
    let b = b.timeout(std::time::Duration::from_secs(3));
    assert_eq!(b.timeout, Some(std::time::Duration::from_secs(3)));
}

#[test]
fn module_specifiers_resolve() {
    let mut l = HttpModuleLoader::new("https://site.example/app/index.html");
    assert_eq!(l.resolve_specifier("https://cdn.example/m.js", None).ok().unwrap(), "https://cdn.example/m.js");
    assert_eq!(l.resolve_specifier("//cdn.example/m.js", None).ok().unwrap(), "https://cdn.example/m.js");
    assert_eq!(l.resolve_specifier("./m.js", None).ok().unwrap(), "https://site.example/app/m.js");
    assert_eq!(l.resolve_specifier("../m.js", Some("https://o.example/a/b/c.js")).ok().unwrap(), "https://o.example/a/m.js");
    assert_eq!(l.resolve_specifier("/root.js", None).ok().unwrap(), "https://site.example/root.js");
    assert!(matches!(l.resolve_specifier("lodash", None), Err(ResolveError::BareSpecifier)));
    l.set_base_url("not a url");
    assert!(matches!(l.resolve_specifier("./m.js", None), Err(ResolveError::InvalidBase)));
    assert_eq!(l.base_url(), "not a url");
}

#[test]
fn preflight_completion_caches_only_what_passed() {
    let mut c = PreflightCache::new();
    let custom = vec!["X-One".to_string()];
    let r = complete_preflight(&mut c, "a.example".to_string(), "PUT", 0, 403, None, None, None, &custom, true);
    assert_eq!(r, Err(CorsError::Status(403)));
    assert!(!c.is_fresh("a.example", "PUT", 0));
    let r = complete_preflight(&mut c, "a.example".to_string(), "PUT", 0, 403, None, None, Some("60"), &custom, false);
    assert_eq!(r, Ok(()));
    assert!(c.is_fresh("a.example", "PUT", 59_999));
    assert!(!c.is_fresh("a.example", "PUT", 60_000));
    let r = complete_preflight(&mut c, "b.example".to_string(), "PUT", 0, 204, Some("PUT"), Some("x-one"), Some("0"), &custom, true);
    assert_eq!(r, Ok(()));
    assert!(!c.is_fresh("b.example", "PUT", 0));
}

#[test]
fn network_responses_get_their_type() {
    let (r, t) = ResponseData::from_network(
        204,
        "No Content".to_string(),
        headers(&[("access-control-allow-origin", "*")]),
        String::new(),
        "https://a.example/".to_string(),
        "cors",
    );
    assert_eq!(t, "cors");
    assert!(r.ok());
    assert_eq!(r.text(), "");
    let (_, t) = ResponseData::from_network(200, "OK".to_string(), HeaderMap::new(), "x".to_string(), String::new(), "cors");
    assert_eq!(t, "basic");
    let (_, t) = ResponseData::from_network(200, "OK".to_string(), HeaderMap::new(), "x".to_string(), String::new(), "no-cors");
    assert_eq!(t, "opaque");
}

#[test]
fn json_needs_a_body() {
    assert_eq!(Response::construct(Some("{}".to_string()), None, None).json_source(), Ok("{}"));
    assert_eq!(Response::construct(None, None, None).json_source(), Err(JsonBodyError::NullBody));
}

#[test]
fn fetch_plans_preflight_for_non_simple_requests() {
    let cache = PreflightCache::new();
    assert!(matches!(plan_fetch("nope".to_string(), None, &cache, 0), Err(FetchError::InvalidUrl)));
    match plan_fetch("https://api.example/x".to_string(), None, &cache, 0) {
        Ok((plan, FetchStep::SendRequest)) => {
            assert_eq!(plan.init.method, "GET");
            assert_eq!(plan.cache_host, "api.example");
        }
        _ => panic!("a plain GET goes straight out"),
    }
    let init = FetchInit::from_options("put", headers(&[("X-Token", "t")]), None, None, None, "UA");
    match plan_fetch("https://api.example/x".to_string(), Some(init), &cache, 0) {
        Ok((plan, FetchStep::SendPreflight { request_method, request_headers, custom })) => {
            assert_eq!(plan.init.method, "PUT");
            assert_eq!(request_method, "PUT");
            assert_eq!(request_headers, Some("X-Token".to_string()));
            assert_eq!(custom, vec!["X-Token".to_string()]);
        }
        _ => panic!("a PUT with a custom header is preflighted"),
    }
    let mut warm = PreflightCache::new();
    warm.record("api.example".to_string(), "PUT".to_string(), 0, 10);
    let init = FetchInit::from_options("PUT", HeaderMap::new(), None, None, None, "UA");
    assert!(matches!(plan_fetch("https://api.example/x".to_string(), Some(init), &warm, 1), Ok((_, FetchStep::SendRequest))));
    assert_eq!(preflight_request_failed(true), Err(FetchError::PreflightFailed));
    assert_eq!(preflight_request_failed(false), Ok(()));
}

#[test]
fn test_fetch_no_arguments() {
    // `fetch()` reads its missing input as the string "undefined".
    let cache = PreflightCache::new();
    assert!(matches!(plan_fetch("undefined".to_string(), None, &cache, 0), Err(FetchError::InvalidUrl)));
}

#[test]
fn test_fetch_invalid_url() {
    let cache = PreflightCache::new();
    assert!(matches!(plan_fetch("not a valid url".to_string(), None, &cache, 0), Err(FetchError::InvalidUrl)));
}

#[test]
fn test_fetch_with_string_url() {
    let cache = PreflightCache::new();
    assert!(plan_fetch("https://httpbin.org/get".to_string(), None, &cache, 0).is_ok());
}

#[test]
fn test_fetch_with_request_object() {
    let cache = PreflightCache::new();
    let req = Request::construct("https://httpbin.org/get".to_string()).ok().unwrap();
    match plan_fetch(req.url.clone(), None, &cache, 0) {
        Ok((plan, _)) => assert_eq!(plan.url, "https://httpbin.org/get"),
        Err(_) => panic!("the request's URL is valid"),
    }
}

#[test]
fn test_request_constructor_no_arguments() {
    // `new Request()` reads its missing input as the string "undefined".
    assert!(matches!(Request::construct("undefined".to_string()), Err(InvalidUrl::InvalidUrl)));
}

#[test]
fn test_request_with_headers_init() {
    // The init object is not read by the constructor.
    let r = Request::construct("https://example.com".to_string()).ok().unwrap();
    assert_eq!(r.url, "https://example.com");
    assert_eq!(r.headers.len(), 0);
}

#[test]
fn test_request_with_body() {
    let r = Request::construct("https://example.com".to_string()).ok().unwrap();
    assert_eq!(r.method, "GET");
    assert_eq!(r.body, None);
}

#[test]
fn test_response_constructor_basic() {
    let r = Response::construct(None, None, None);
    assert_eq!(r.status, 200);
    assert_eq!(r.body, None);
}

#[test]
fn test_response_constructor_with_body() {
    let r = Response::construct(Some("test body".to_string()), None, None);
    assert_eq!(r.text(), "test body");
}

#[test]
fn test_headers_constructor_basic() {
    let h = headers_from_pairs(&vec![]);
    assert_eq!(h.len(), 0);
}

#[test]
fn huge_max_age_stays_fresh() {
    let mut c = PreflightCache::new();
    c.record("a.example".to_string(), "PUT".to_string(), 1_000, u64::MAX);
    assert!(c.is_fresh("a.example", "PUT", u64::MAX - 1));
}

#[test]
fn binary_messages_arrive_as_base64() {
    let mut c = Connection::new();
    c.on_connected(String::new());
    c.on_binary_message(&vec![0x68, 0x69, 0xff]);
    let events = c.take_pending_events();
    assert_eq!(events.len(), 2);
    assert_eq!(events[1], PendingEvent::Message { data: "aGn/".to_string(), is_binary: true });
}

#[test]
fn connect_target_serializes_or_refuses() {
    assert_eq!(connect_target("wss://Example.com/chat"), Some("wss://example.com/chat".to_string()));
    assert_eq!(connect_target("ws://host:80"), Some("ws://host/".to_string()));
    assert_eq!(connect_target("not a url"), None);
}

#[test]
fn methods_that_are_not_tokens_go_out_as_get() {
    assert_eq!(request_method("PATCH"), "PATCH");
    assert_eq!(request_method("X-CUSTOM"), "X-CUSTOM");
    assert_eq!(request_method(""), "GET");
    assert_eq!(request_method("BAD METHOD"), "GET");
    assert_eq!(request_method("PÜT"), "GET");
}

#[test]
fn fetch_settles_with_reply_or_type_error() {
    let reply = settle_fetch(
        Ok((200, "OK".to_string(), headers(&[("access-control-allow-origin", "*")]), "hi".to_string())),
        "https://a.example/".to_string(),
        "cors",
    );
    match reply {
        Ok((r, t)) => {
            assert_eq!(r.status, 200);
            assert!(r.ok());
            assert_eq!(r.text(), "hi");
            assert_eq!(t, "cors");
        }
        Err(_) => panic!("a reply fulfils the promise"),
    }
    let failed = settle_fetch(Err((TransportFailure::Request, "timed out".to_string())), "https://a.example/".to_string(), "cors");
    assert_eq!(failed.err(), Some("Fetch request failed: timed out".to_string()));
    let body = settle_fetch(Err((TransportFailure::Body, "eof".to_string())), "https://a.example/".to_string(), "cors");
    assert_eq!(body.err(), Some("Failed to read response body: eof".to_string()));
}
