use proton_drive::proxy::{
    forwarded_headers, forwards_header, prepare_request, proxy_failure, proxy_method,
    proxy_request, proxy_response, proxy_target_url, readable_header, ProxyRequest, RawHeader,
    PROTON_API_BASE, PROXY_CONNECT_TIMEOUT_SECONDS, PROXY_REQUEST_TIMEOUT_SECONDS,
};
use proton_drive::web_url::Url;

fn pair(a: &str, b: &str) -> (String, String) {
    (a.to_string(), b.to_string())
}

fn raw(name: &str, value: &[u8]) -> RawHeader {
    RawHeader { name: name.to_string(), value: value.to_vec() }
}

fn request(method: &str, url: &str) -> ProxyRequest {
    ProxyRequest {
        method: method.to_string(),
        url: url.to_string(),
        headers: vec![pair("Accept", "*/*"), pair("COOKIE", "a=b"), pair("x-pm-uid", "1")],
        body: Some("{}".to_string()),
    }
}

#[test]
fn local_api_calls_reach_proton() {
    assert_eq!(PROTON_API_BASE, "https://mail.proton.me");
    for (from, to) in [
        ("https://localhost/api/core/v4/users?a=/api", "https://mail.proton.me/api/core/v4/users?a=/api"),
        ("http://localhost/api/x", "https://mail.proton.me/api/x"),
        ("tauri://localhost/api/x?y", "https://mail.proton.me/api/x?y"),
        ("tauri://localhost/apix", "https://mail.proton.me/apix"),
        ("tauri://localhost/other", "tauri://localhost/other"),
        ("/api/x", "https://mail.proton.me/api/x"),
        ("/x", "https://mail.proton.me/x"),
        ("api/x", "https://mail.proton.me/api/x"),
        ("", "https://mail.proton.me/"),
        ("https://localhost/other", "https://localhost/other"),
        ("https://drive-api.proton.me/api/x", "https://drive-api.proton.me/api/x"),
        ("http://example.com/", "http://example.com/"),
        ("HTTPS://localhost/api/x", "https://mail.proton.me/HTTPS://localhost/api/x"),
    ] {
        assert_eq!(proxy_target_url(from), to, "{}", from);
    }
}

#[test]
fn methods_are_uppercased_or_get() {
    assert_eq!(proxy_method("post"), "POST");
    assert_eq!(proxy_method("PUT"), "PUT");
    assert_eq!(proxy_method("purge-all"), "PURGE-ALL");
    assert_eq!(proxy_method("straße"), "STRASSE");
    assert_eq!(proxy_method("é"), "GET");
    assert_eq!(proxy_method("a b"), "GET");
    assert_eq!(proxy_method(""), "GET");
}

#[test]
fn every_ascii_character_counts_as_in_the_http_crate() {
    for code in 0u8..128 {
        let text = format!("A{}", code as char);
        let upper = text.to_uppercase();
        let expected = match reqwest::Method::from_bytes(upper.as_bytes()) {
            Ok(_) => upper,
            Err(_) => "GET".to_string(),
        };
        assert_eq!(proxy_method(&text), expected, "{:?}", text);
    }
}

#[test]
fn host_and_cookies_are_not_passed_on() {
    assert!(!forwards_header("Host"));
    assert!(!forwards_header("cookie"));
    assert!(!forwards_header("COOKIE"));
    assert!(!forwards_header("coo\u{212a}ie"));
    assert!(forwards_header("x-host"));
    assert!(forwards_header("set-cookie"));
    let headers = vec![pair("HOST", "h"), pair("a", "1"), pair("Cookie", "c"), pair("b", "2")];
    assert_eq!(forwarded_headers(&headers), vec![pair("a", "1"), pair("b", "2")]);
    assert_eq!(forwarded_headers(&vec![]), vec![]);
}

#[test]
fn requests_are_prepared() {
    let prepared = proxy_request(request("patch", "/api/x?y=1")).unwrap();
    assert_eq!(prepared.method, "PATCH");
    assert_eq!(prepared.url, "https://mail.proton.me/api/x?y=1");
    assert_eq!(prepared.target.host.as_deref(), Some("mail.proton.me"));
    assert_eq!(prepared.target.path, "/api/x");
    assert_eq!(prepared.headers, vec![pair("Accept", "*/*"), pair("x-pm-uid", "1")]);
    assert_eq!(prepared.body.as_deref(), Some("{}"));
    match proxy_request(request("get", "https://[bad/")) {
        Ok(_) => panic!("accepted"),
        Err(e) => assert_eq!(e, "Invalid request URL"),
    }
    match prepare_request(request("get", "/x"), None) {
        Ok(_) => panic!("accepted"),
        Err(e) => assert_eq!(e, "Invalid request URL"),
    }
    let given = prepare_request(request("get", "/x"), Url::parse("about:blank")).unwrap();
    assert_eq!(given.target.text, "about:blank");
    assert_eq!(given.url, "https://mail.proton.me/x");
}

#[test]
fn failures_are_answered() {
    let timeout = proxy_failure(true);
    assert_eq!(timeout.status, 504);
    assert!(timeout.headers.is_empty());
    assert_eq!(
        timeout.body,
        "{\"Error\":\"Native proxy request failed\",\"Status\":504,\"Timeout\":true}"
    );
    let other = proxy_failure(false);
    assert_eq!(other.status, 502);
    assert_eq!(
        other.body,
        "{\"Error\":\"Native proxy request failed\",\"Status\":502,\"Timeout\":false}"
    );
    assert_eq!(PROXY_REQUEST_TIMEOUT_SECONDS, 45);
    assert_eq!(PROXY_CONNECT_TIMEOUT_SECONDS, 15);
}

#[test]
fn readable_header_values_are_those_of_the_http_crate() {
    for byte in 0u8..=255 {
        let value = vec![b'a', byte];
        let ours = readable_header(&value);
        match reqwest::header::HeaderValue::from_bytes(&value) {
            Ok(theirs) => assert_eq!(ours.as_deref(), theirs.to_str().ok(), "{}", byte),
            Err(_) => assert_eq!(ours, None, "{}", byte),
        }
    }
    assert_eq!(readable_header(&vec![]).as_deref(), Some(""));
}

#[test]
fn answers_are_taken_apart() {
    let headers = vec![
        raw("content-type", b"text/html"),
        raw("set-cookie", b"a=1; Path=/"),
        raw("x-twice", b"first"),
        raw("Set-Cookie", b"b=2"),
        raw("x-broken", &[0xff]),
        raw("set-cookie", &[0xe9]),
        raw("x-twice", b"second"),
    ];
    let outcome = proxy_response(201, &headers, Some("body".to_string()));
    assert_eq!(outcome.response.status, 201);
    assert_eq!(outcome.response.body, "body");
    assert_eq!(outcome.cookies, vec!["a=1; Path=/".to_string(), "b=2".to_string()]);
    let mut shown = outcome.response.headers;
    shown.sort();
    assert_eq!(shown, vec![pair("content-type", "text/html"), pair("x-twice", "second")]);

    let empty = proxy_response(204, &vec![], None);
    assert_eq!(empty.response.status, 204);
    assert_eq!(empty.response.body, "");
    assert!(empty.response.headers.is_empty());
    assert!(empty.cookies.is_empty());
}
