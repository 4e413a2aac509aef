//! Passing requests of the page on to the Proton API.

use crate::letter_case::{
    ascii_lowered, ascii_uppered, eq_ignore_ascii_case, lowercase, to_lowercase, to_uppercase,
    uppercase,
};
use crate::named_map::{distinct_names, entries_map, NamedMap};
use crate::text::{
    eq_str, find, find_from, has_infix, has_prefix, lemma_find_from, lemma_prefix_char, occurs_at,
    starts_with, views,
};
use crate::web_url::{opt_view, pair_views, parsed_url, Url, UrlView};
use vstd::prelude::*;
use vstd::utf8::is_ascii_chars;

verus! {

/// The base URL of the Proton API.
pub const PROTON_API_BASE: &'static str = "https://mail.proton.me";

/// How long a request may take, in seconds.
pub const PROXY_REQUEST_TIMEOUT_SECONDS: u64 = 45;

/// How long a connection may take to be made, in seconds.
pub const PROXY_CONNECT_TIMEOUT_SECONDS: u64 = 15;

/// `url` from the first `/api` on, moved to the Proton API; where there is none, `url` itself.
pub open spec fn from_api_path(url: Seq<char>) -> Seq<char> {
    match find_from(url, "/api"@, 0) {
        Some(i) => PROTON_API_BASE@ + url.skip(i),
        None => url,
    }
}

/// The URL to which a request for `url` is passed on.
pub open spec fn proxied_url(url: Seq<char>) -> Seq<char> {
    if has_prefix(url, "https://localhost/api/"@) || has_prefix(url, "http://localhost/api/"@) {
        from_api_path(url)
    } else if has_prefix(url, "https://"@) || has_prefix(url, "http://"@) {
        url
    } else if has_prefix(url, "tauri://"@) {
        from_api_path(url)
    } else if has_prefix(url, "/"@) {
        PROTON_API_BASE@ + url
    } else {
        PROTON_API_BASE@ + "/"@ + url
    }
}

fn moved_to_api(url: &str) -> (r: String)
    ensures
        r@ == from_api_path(url@),
{
    match find(url, "/api") {
        Some(i) => {
            let mut r = PROTON_API_BASE.to_string();
            let tail = url.substring_char(i, url.unicode_len());
            assert(tail@ =~= url@.skip(i as int));
            r.append(tail);
            r
        },
        None => url.to_string(),
    }
}

/// The URL to which a request for `url` is passed on.
pub fn proxy_target_url(url: &str) -> (r: String)
    ensures
        r@ == proxied_url(url@),
{
    if starts_with(url, "https://localhost/api/") || starts_with(url, "http://localhost/api/") {
        moved_to_api(url)
    } else if starts_with(url, "https://") || starts_with(url, "http://") {
        url.to_string()
    } else if starts_with(url, "tauri://") {
        moved_to_api(url)
    } else if starts_with(url, "/") {
        let mut r = PROTON_API_BASE.to_string();
        r.append(url);
        r
    } else {
        let mut r = PROTON_API_BASE.to_string();
        r.append("/");
        r.append(url);
        r
    }
}

/// A character that the name of an HTTP method may hold.
pub open spec fn is_token_char(c: char) -> bool {
    ||| 'a' <= c <= 'z'
    ||| 'A' <= c <= 'Z'
    ||| '0' <= c <= '9'
    ||| c == '!' || c == '#' || c == '$' || c == '%' || c == '&' || c == '\'' || c == '*'
    ||| c == '+' || c == '-' || c == '.' || c == '^' || c == '_' || c == '`' || c == '|' || c == '~'
}

/// `s` can be the name of an HTTP method.
pub open spec fn is_token(s: Seq<char>) -> bool {
    s.len() > 0 && forall|i: int| 0 <= i < s.len() ==> is_token_char(#[trigger] s[i])
}

/// Calls `reqwest::Method::from_bytes` on the text and gives the name of the method.
///
/// Claimed: exactly the tokens of RFC 9110 are methods, and a method keeps the name that it was
/// made from.
#[verifier::external_body]
fn method_name(text: &str) -> (r: Option<String>)
    ensures
        r is Some <==> is_token(text@),
        r matches Some(m) ==> m@ == text@,
{
    reqwest::Method::from_bytes(text.as_bytes()).ok().map(|m| m.as_str().to_string())
}

/// The method with the name `name`: one that cannot be a method becomes `GET`.
pub open spec fn method_or_get(name: Seq<char>) -> Seq<char> {
    if is_token(name) {
        name
    } else {
        "GET"@
    }
}

/// The method with which a request is passed on.
pub fn proxy_method(method: &str) -> (r: String)
    ensures
        r@ == method_or_get(uppercase(method@)),
        is_ascii_chars(method@) ==> r@ == method_or_get(ascii_uppered(method@)),
{
    let upper = to_uppercase(method);
    match method_name(upper.as_str()) {
        Some(m) => m,
        None => "GET".to_string(),
    }
}

/// A header with this name, in lowercase, is passed on: cookies come from the web view itself, and
/// the host from the URL.
pub open spec fn passes(lowered: Seq<char>) -> bool {
    lowered != "host"@ && lowered != "cookie"@
}

/// Whether a header is passed on.
pub fn forwards_header(name: &str) -> (r: bool)
    ensures
        r == passes(lowercase(name@)),
        is_ascii_chars(name@) ==> r == passes(ascii_lowered(name@)),
        r <==> lowercase(name@) != "host"@ && lowercase(name@) != "cookie"@,
        is_ascii_chars(name@) ==> (r <==> ascii_lowered(name@) != "host"@ && ascii_lowered(name@)
            != "cookie"@),
{
    let lowered = to_lowercase(name);
    !eq_str(lowered.as_str(), "host") && !eq_str(lowered.as_str(), "cookie")
}

/// The headers of a request that are passed on, in order.
pub open spec fn forwarded(headers: Seq<(Seq<char>, Seq<char>)>) -> Seq<(Seq<char>, Seq<char>)> {
    headers.filter(|h: (Seq<char>, Seq<char>)| passes(lowercase(h.0)))
}

/// The headers of a request that are passed on, in order.
pub fn forwarded_headers(headers: &Vec<(String, String)>) -> (r: Vec<(String, String)>)
    ensures
        pair_views(r@) == forwarded(pair_views(headers@)),
        forall|i: int|
            0 <= i < r@.len() && is_ascii_chars((#[trigger] r@[i]).0@) ==> passes(
                ascii_lowered(r@[i].0@),
            ),
        pair_views(r@) == pair_views(headers@).filter(
            |h: (Seq<char>, Seq<char>)| lowercase(h.0) != "host"@ && lowercase(h.0) != "cookie"@,
        ),
        forall|i: int|
            0 <= i < headers@.len() && is_ascii_chars(
                (#[trigger] pair_views(headers@)[i]).0,
            ) && ascii_lowered(headers@[i].0@) != "host"@ && ascii_lowered(headers@[i].0@)
                != "cookie"@ ==> pair_views(r@).contains(pair_views(headers@)[i]),
        forall|i: int|
            0 <= i < r@.len() && is_ascii_chars((#[trigger] r@[i]).0@) ==> ascii_lowered(r@[i].0@)
                != "host"@ && ascii_lowered(r@[i].0@) != "cookie"@,
{
    let ghost all = pair_views(headers@);
    let ghost keep = |h: (Seq<char>, Seq<char>)| passes(lowercase(h.0));
    let mut r: Vec<(String, String)> = Vec::new();
    assert(pair_views(r@) =~= all.take(0).filter(keep)) by {
        reveal(Seq::filter);
    }
    let mut i: usize = 0;
    while i < headers.len()
        invariant
            i <= headers.len(),
            all == pair_views(headers@),
            keep == (|h: (Seq<char>, Seq<char>)| passes(lowercase(h.0))),
            pair_views(r@) == all.take(i as int).filter(keep),
            forall|j: int|
                0 <= j < r@.len() && is_ascii_chars((#[trigger] r@[j]).0@) ==> passes(
                    ascii_lowered(r@[j].0@),
                ),
            forall|j: int|
                0 <= j < i && is_ascii_chars((#[trigger] all[j]).0) && ascii_lowered(all[j].0)
                    != "host"@ && ascii_lowered(all[j].0) != "cookie"@ ==> pair_views(
                    r@,
                ).contains(all[j]),
        decreases headers.len() - i,
    {
        let ghost before = r@;
        proof {
            assert(all.take(i + 1).drop_last() =~= all.take(i as int));
            assert(all.take(i + 1).last() == (headers@[i as int].0@, headers@[i as int].1@));
            reveal(Seq::filter);
        }
        if forwards_header(headers[i].0.as_str()) {
            r.push((headers[i].0.clone(), headers[i].1.clone()));
            proof {
                let was = pair_views(before);
                let now = pair_views(r@);
                assert(now =~= was.push(all[i as int]));
                assert(now[was.len() as int] == all[i as int]);
                assert forall|h: (Seq<char>, Seq<char>)| was.contains(h) implies now.contains(
                    h,
                ) by {
                    let k = choose|k: int| 0 <= k < was.len() && was[k] == h;
                    assert(now[k] == h);
                }
            }
        }
        i += 1;
    }
    assert(keep =~= (|h: (Seq<char>, Seq<char>)|
        lowercase(h.0) != "host"@ && lowercase(h.0) != "cookie"@));
    assert(all.take(all.len() as int) =~= all);
    r
}

/// A request of the page.
pub struct ProxyRequest {
    pub method: String,
    pub url: String,
    pub headers: Vec<(String, String)>,
    pub body: Option<String>,
}

/// A request as it is sent.
pub struct PreparedRequest {
    pub method: String,
    /// The URL as a text.
    pub url: String,
    /// The same URL in its parts, for which cookies are looked up.
    pub target: Url,
    pub headers: Vec<(String, String)>,
    pub body: Option<String>,
}

/// `prepared` is what becomes of `request` when its URL reads as `target`.
pub open spec fn is_prepared(
    prepared: PreparedRequest,
    request: ProxyRequest,
    target: UrlView,
) -> bool {
    &&& prepared.method@ == method_or_get(uppercase(request.method@))
    &&& is_ascii_chars(request.method@) ==> prepared.method@ == method_or_get(
        ascii_uppered(request.method@),
    )
    &&& prepared.url@ == proxied_url(request.url@)
    &&& prepared.target@ == target
    &&& pair_views(prepared.headers@) == forwarded(pair_views(request.headers@))
    &&& forall|i: int|
        0 <= i < prepared.headers@.len() && is_ascii_chars((#[trigger] prepared.headers@[i]).0@)
            ==> passes(ascii_lowered(prepared.headers@[i].0@))
    &&& prepared.body == request.body
}

/// Prepares a request, given what the URL to which it goes reads as.
pub fn prepare_request(request: ProxyRequest, target: Option<Url>) -> (r: Result<
    PreparedRequest,
    String,
>)
    ensures
        match r {
            Ok(p) => target is Some && is_prepared(p, request, target->0@),
            Err(e) => target is None && e@ == "Invalid request URL"@,
        },
{
    match target {
        Some(parsed) => Ok(
            PreparedRequest {
                method: proxy_method(request.method.as_str()),
                url: proxy_target_url(request.url.as_str()),
                target: parsed,
                headers: forwarded_headers(&request.headers),
                body: request.body,
            },
        ),
        None => Err("Invalid request URL".to_string()),
    }
}

/// Prepares a request of the page for sending.
pub fn proxy_request(request: ProxyRequest) -> (r: Result<PreparedRequest, String>)
    ensures
        match r {
            Ok(p) => parsed_url(proxied_url(request.url@)) is Some && is_prepared(
                p,
                request,
                parsed_url(proxied_url(request.url@))->0,
            ),
            Err(e) => parsed_url(proxied_url(request.url@)) is None && e@ == "Invalid request URL"@,
        },
{
    let target = Url::parse(proxy_target_url(request.url.as_str()).as_str());
    prepare_request(request, target)
}

/// The answer to a request of the page.
pub struct ProxyResponse {
    pub status: u16,
    pub headers: Vec<(String, String)>,
    pub body: String,
}

/// The answer to a request that could not be sent or was not answered.
pub fn proxy_failure(timed_out: bool) -> (r: ProxyResponse)
    ensures
        r.status == if timed_out { 504u16 } else { 502u16 },
        r.headers@.len() == 0,
        r.body@ == if timed_out {
            "{\"Error\":\"Native proxy request failed\",\"Status\":504,\"Timeout\":true}"@
        } else {
            "{\"Error\":\"Native proxy request failed\",\"Status\":502,\"Timeout\":false}"@
        },
{
    if timed_out {
        ProxyResponse {
            status: 504,
            headers: Vec::new(),
            body:
                "{\"Error\":\"Native proxy request failed\",\"Status\":504,\"Timeout\":true}".to_string(),
        }
    } else {
        ProxyResponse {
            status: 502,
            headers: Vec::new(),
            body:
                "{\"Error\":\"Native proxy request failed\",\"Status\":502,\"Timeout\":false}".to_string(),
        }
    }
}

/// A byte that a readable header value may hold: visible ASCII, a space or a tab.
pub open spec fn is_visible(b: u8) -> bool {
    32 <= b < 127 || b == 9
}

/// The text of a header value, where it is readable.
pub open spec fn header_text(value: Seq<u8>) -> Option<Seq<char>> {
    if forall|i: int| 0 <= i < value.len() ==> is_visible(#[trigger] value[i]) {
        Some(value.map_values(|b: u8| b as char))
    } else {
        None
    }
}

/// The text of a header value, where it is readable.
pub fn readable_header(value: &Vec<u8>) -> (r: Option<String>)
    ensures
        opt_view(r) == header_text(value@),
{
    let mut text = String::new();
    let ghost f = |b: u8| b as char;
    let mut i: usize = 0;
    while i < value.len()
        invariant
            i <= value.len(),
            f == (|b: u8| b as char),
            text@ == value@.take(i as int).map_values(f),
            forall|j: int| 0 <= j < i ==> is_visible(#[trigger] value@[j]),
        decreases value.len() - i,
    {
        let b = value[i];
        if !((32 <= b && b < 127) || b == 9) {
            assert(!is_visible(value@[i as int]));
            return None;
        }
        text.push(b as char);
        i += 1;
        assert(text@ =~= value@.take(i as int).map_values(f));
    }
    assert(value@.take(value@.len() as int) =~= value@);
    Some(text)
}

/// A header of an answer: its name and its value.
pub struct RawHeader {
    pub name: String,
    pub value: Vec<u8>,
}

/// The views of the headers of an answer.
pub open spec fn raw_views(headers: Seq<RawHeader>) -> Seq<(Seq<char>, Seq<u8>)> {
    headers.map_values(|h: RawHeader| (h.name@, h.value@))
}

/// The header stores a cookie.
pub open spec fn sets_cookie(name: Seq<char>) -> bool {
    ascii_lowered(name) == "set-cookie"@
}

/// The cookies that an answer stores, in order.
pub open spec fn stored_cookies(headers: Seq<(Seq<char>, Seq<u8>)>) -> Seq<Seq<char>>
    decreases headers.len(),
{
    if headers.len() == 0 {
        Seq::empty()
    } else {
        let (name, value) = headers.last();
        let before = stored_cookies(headers.drop_last());
        match header_text(value) {
            Some(text) => if sets_cookie(name) {
                before.push(text)
            } else {
                before
            },
            None => before,
        }
    }
}

/// The headers of an answer that the page sees: the readable ones that store no cookie, of several
/// with one name the last.
pub open spec fn page_headers(headers: Seq<(Seq<char>, Seq<u8>)>) -> Map<Seq<char>, Seq<char>>
    decreases headers.len(),
{
    if headers.len() == 0 {
        Map::empty()
    } else {
        let (name, value) = headers.last();
        let before = page_headers(headers.drop_last());
        match header_text(value) {
            Some(text) => if sets_cookie(name) {
                before
            } else {
                before.insert(name, text)
            },
            None => before,
        }
    }
}

/// The views of the values of a map.
pub open spec fn value_views(m: Map<Seq<char>, String>) -> Map<Seq<char>, Seq<char>> {
    m.map_values(|v: String| v@)
}

/// An answer, taken apart.
pub struct ProxyOutcome {
    /// What the page gets.
    pub response: ProxyResponse,
    /// The cookies that go to the web view itself.
    pub cookies: Vec<String>,
}

/// Takes an answer apart, given its body, if it could be read.
pub fn proxy_response(status: u16, headers: &Vec<RawHeader>, body: Option<String>) -> (r:
    ProxyOutcome)
    ensures
        r.response.status == status,
        distinct_names(r.response.headers@),
        value_views(entries_map(r.response.headers@)) == page_headers(raw_views(headers@)),
        r.response.body@ == match body {
            Some(text) => text@,
            None => Seq::empty(),
        },
        views(r.cookies@) == stored_cookies(raw_views(headers@)),
{
    let ghost all = raw_views(headers@);
    let mut cookies: Vec<String> = Vec::new();
    let mut shown: NamedMap<String> = NamedMap::new();
    let mut i: usize = 0;
    proof {
        reveal_strlit("set-cookie");
        assert(ascii_lowered("set-cookie"@) =~= "set-cookie"@);
        assert(views(cookies@) =~= Seq::empty());
        assert(value_views(shown@) =~= Map::empty());
    }
    while i < headers.len()
        invariant
            i <= headers.len(),
            all == raw_views(headers@),
            ascii_lowered("set-cookie"@) == "set-cookie"@,
            shown.wf(),
            views(cookies@) == stored_cookies(all.take(i as int)),
            value_views(shown@) == page_headers(all.take(i as int)),
        decreases headers.len() - i,
    {
        let ghost had = cookies@;
        let ghost before = shown@;
        proof {
            assert(all.take(i + 1).drop_last() =~= all.take(i as int));
            assert(all.take(i + 1).last() == (headers@[i as int].name@, headers@[i as int].value@));
        }
        if let Some(text) = readable_header(&headers[i].value) {
            if eq_ignore_ascii_case(headers[i].name.as_str(), "set-cookie") {
                cookies.push(text);
                assert(views(cookies@) =~= views(had).push(text@));
            } else {
                shown.insert(headers[i].name.clone(), text);
                assert(value_views(shown@) =~= value_views(before).insert(
                    headers@[i as int].name@,
                    text@,
                ));
            }
        }
        i += 1;
    }
    assert(all.take(all.len() as int) =~= all);
    let text = match body {
        Some(t) => t,
        None => String::new(),
    };
    ProxyOutcome {
        response: ProxyResponse { status, headers: shown.into_entries(), body: text },
        cookies,
    }
}

/// No answer shows the page a header that stores a cookie.
pub proof fn law_page_sees_no_set_cookie(headers: Seq<(Seq<char>, Seq<u8>)>, name: Seq<char>)
    requires
        sets_cookie(name),
    ensures
        !page_headers(headers).dom().contains(name),
    decreases headers.len(),
{
    if headers.len() > 0 {
        law_page_sees_no_set_cookie(headers.drop_last(), name);
    }
}

/// A request of the page to an API path on its own host goes to the Proton API, with the path and
/// the query unchanged.
pub proof fn law_local_api_calls_reach_proton(rest: Seq<char>)
    ensures
        proxied_url("https://localhost/api/"@ + rest) == "https://mail.proton.me/api/"@ + rest,
        proxied_url("http://localhost/api/"@ + rest) == "https://mail.proton.me/api/"@ + rest,
        proxied_url("tauri://localhost/api/"@ + rest) == "https://mail.proton.me/api/"@ + rest,
        proxied_url("/api/"@ + rest) == "https://mail.proton.me/api/"@ + rest,
{
    reveal_strlit("https://localhost/api/");
    reveal_strlit("http://localhost/api/");
    reveal_strlit("tauri://localhost/api/");
    reveal_strlit("https://mail.proton.me/api/");
    reveal_strlit("https://mail.proton.me");
    reveal_strlit("https://");
    reveal_strlit("http://");
    reveal_strlit("tauri://");
    reveal_strlit("/api/");
    reveal_strlit("/api");
    reveal_strlit("/");
    let a = "https://localhost/api/"@ + rest;
    let b = "http://localhost/api/"@ + rest;
    let c = "tauri://localhost/api/"@ + rest;
    let d = "/api/"@ + rest;
    lemma_api_position(a, 17);
    lemma_api_position(b, 16);
    lemma_api_position(c, 17);
    assert(has_prefix(a, "https://localhost/api/"@));
    assert(has_prefix(b, "http://localhost/api/"@));
    assert(proxied_url(a) =~= "https://mail.proton.me/api/"@ + rest);
    assert(proxied_url(b) =~= "https://mail.proton.me/api/"@ + rest);
    assert(has_prefix(c, "tauri://"@));
    assert(c[0] == 't');
    assert(d[0] == '/');
    if has_prefix(c, "https://localhost/api/"@) {
        lemma_prefix_char(c, "https://localhost/api/"@, 0);
    }
    if has_prefix(c, "http://localhost/api/"@) {
        lemma_prefix_char(c, "http://localhost/api/"@, 0);
    }
    if has_prefix(c, "https://"@) {
        lemma_prefix_char(c, "https://"@, 0);
    }
    if has_prefix(c, "http://"@) {
        lemma_prefix_char(c, "http://"@, 0);
    }
    assert(proxied_url(c) =~= "https://mail.proton.me/api/"@ + rest);
    if has_prefix(d, "https://localhost/api/"@) {
        lemma_prefix_char(d, "https://localhost/api/"@, 0);
    }
    if has_prefix(d, "http://localhost/api/"@) {
        lemma_prefix_char(d, "http://localhost/api/"@, 0);
    }
    if has_prefix(d, "https://"@) {
        lemma_prefix_char(d, "https://"@, 0);
    }
    if has_prefix(d, "http://"@) {
        lemma_prefix_char(d, "http://"@, 0);
    }
    if has_prefix(d, "tauri://"@) {
        lemma_prefix_char(d, "tauri://"@, 0);
    }
    assert(has_prefix(d, "/"@));
    assert(proxied_url(d) =~= "https://mail.proton.me/api/"@ + rest);
}

/// The first `/api` of a URL whose scheme and host hold none is the one behind them.
proof fn lemma_api_position(url: Seq<char>, n: int)
    requires
        0 <= n,
        occurs_at(url, "/api"@, n),
        forall|j: int| 0 <= j < n ==> url[j] != '/' || #[trigger] url[j + 1] != 'a',
    ensures
        find_from(url, "/api"@, 0) == Some(n),
{
    reveal_strlit("/api");
    lemma_find_from(url, "/api"@, 0);
    assert forall|j: int| 0 <= j < n implies !occurs_at(url, "/api"@, j) by {
        if occurs_at(url, "/api"@, j) {
            assert(url.subrange(j, j + 4)[0] == '/');
            assert(url.subrange(j, j + 4)[1] == 'a');
            assert(url[j + 1] == 'a');
        }
    }
}

/// A request for a page of another host is passed on as it is.
pub proof fn law_other_hosts_are_kept(url: Seq<char>)
    requires
        has_prefix(url, "https://"@) || has_prefix(url, "http://"@),
        !has_prefix(url, "https://localhost/api/"@),
        !has_prefix(url, "http://localhost/api/"@),
    ensures
        proxied_url(url) == url,
{
}

/// Of the headers of a request exactly those called `host` and `cookie`, in any case, are held
/// back; the others are passed on in order, with their values.
pub proof fn law_headers_are_passed_on(
    headers: Seq<(Seq<char>, Seq<char>)>,
    name: Seq<char>,
    value: Seq<char>,
)
    ensures
        forwarded(Seq::empty()) == Seq::<(Seq<char>, Seq<char>)>::empty(),
        lowercase(name) == "host"@ || lowercase(name) == "cookie"@ ==> forwarded(
            headers.push((name, value)),
        ) == forwarded(headers),
        lowercase(name) != "host"@ && lowercase(name) != "cookie"@ ==> forwarded(
            headers.push((name, value)),
        ) == forwarded(headers).push((name, value)),
        passes(name) <==> name != "host"@ && name != "cookie"@,
{
    reveal(Seq::filter);
    assert(headers.push((name, value)).drop_last() =~= headers);
    assert(forwarded(Seq::empty()) =~= Seq::empty());
}

/// A request is passed on whole: its method, its URL, its headers and its body.
pub proof fn law_requests_are_passed_on_whole(
    prepared: PreparedRequest,
    request: ProxyRequest,
    target: UrlView,
)
    requires
        is_prepared(prepared, request, target),
    ensures
        prepared.body == request.body,
        prepared.target@ == target,
        prepared.url@ == proxied_url(request.url@),
        is_token(uppercase(request.method@)) ==> prepared.method@ == uppercase(request.method@),
        !is_token(uppercase(request.method@)) ==> prepared.method@ == "GET"@,
        pair_views(prepared.headers@) == pair_views(request.headers@).filter(
            |h: (Seq<char>, Seq<char>)| lowercase(h.0) != "host"@ && lowercase(h.0) != "cookie"@,
        ),
{
    assert((|h: (Seq<char>, Seq<char>)| passes(lowercase(h.0))) =~= (|h: (Seq<char>, Seq<char>)|
        lowercase(h.0) != "host"@ && lowercase(h.0) != "cookie"@));
}

/// The name of a method may hold the visible ASCII characters but for the delimiters.
pub proof fn law_method_characters(c: char)
    ensures
        is_token_char(c) <==> {
            &&& '!' <= c <= '~'
            &&& c != '"' && c != '(' && c != ')' && c != ',' && c != '/' && c != ':' && c != ';'
            &&& c != '<' && c != '=' && c != '>' && c != '?' && c != '@' && c != '[' && c != '\\'
            &&& c != ']' && c != '{' && c != '}'
        },
{
}

/// A method is kept where its name can be one; an empty name, and one with a character that no
/// method holds, become `GET`.
pub proof fn law_methods_are_kept(name: Seq<char>, i: int)
    ensures
        name.len() > 0 && (forall|j: int| 0 <= j < name.len() ==> is_token_char(#[trigger] name[j]))
            ==> method_or_get(name) == name,
        name.len() == 0 ==> method_or_get(name) == "GET"@,
        0 <= i < name.len() && !is_token_char(name[i]) ==> method_or_get(name) == "GET"@,
{
}

/// What is no URL of its own is a path on the Proton API.
pub proof fn law_paths_go_to_proton(rest: Seq<char>, name: Seq<char>)
    requires
        !has_prefix(name, "/"@),
        !has_prefix(name, "https://"@),
        !has_prefix(name, "http://"@),
        !has_prefix(name, "tauri://"@),
    ensures
        proxied_url("/"@ + rest) == "https://mail.proton.me/"@ + rest,
        proxied_url(name) == "https://mail.proton.me/"@ + name,
{
    reveal_strlit("https://localhost/api/");
    reveal_strlit("http://localhost/api/");
    reveal_strlit("https://mail.proton.me/");
    reveal_strlit("https://mail.proton.me");
    reveal_strlit("https://");
    reveal_strlit("http://");
    reveal_strlit("tauri://");
    reveal_strlit("/");
    let path = "/"@ + rest;
    assert(path[0] == '/');
    assert(has_prefix(path, "/"@));
    if has_prefix(path, "https://localhost/api/"@) {
        lemma_prefix_char(path, "https://localhost/api/"@, 0);
    }
    if has_prefix(path, "http://localhost/api/"@) {
        lemma_prefix_char(path, "http://localhost/api/"@, 0);
    }
    if has_prefix(path, "https://"@) {
        lemma_prefix_char(path, "https://"@, 0);
    }
    if has_prefix(path, "http://"@) {
        lemma_prefix_char(path, "http://"@, 0);
    }
    if has_prefix(path, "tauri://"@) {
        lemma_prefix_char(path, "tauri://"@, 0);
    }
    if has_prefix(name, "https://localhost/api/"@) {
        assert(name.subrange(0, 8) =~= name.subrange(0, 22).subrange(0, 8));
        assert("https://localhost/api/"@.subrange(0, 8) =~= "https://"@);
    }
    if has_prefix(name, "http://localhost/api/"@) {
        assert(name.subrange(0, 7) =~= name.subrange(0, 21).subrange(0, 7));
        assert("http://localhost/api/"@.subrange(0, 7) =~= "http://"@);
    }
    assert(PROTON_API_BASE@ + path =~= "https://mail.proton.me/"@ + rest);
    assert(PROTON_API_BASE@ + "/"@ + name =~= "https://mail.proton.me/"@ + name);
}

/// A URL of the shell goes to the Proton API from its first `/api` on; one without it stays as it
/// is.
pub proof fn law_shell_urls_go_to_proton_from_the_api_on(url: Seq<char>, n: int)
    requires
        has_prefix(url, "tauri://"@),
    ensures
        !has_infix(url, "/api"@) ==> proxied_url(url) == url,
        occurs_at(url, "/api"@, n) && (forall|j: int| 0 <= j < n ==> !occurs_at(url, "/api"@, j))
            ==> proxied_url(url) == "https://mail.proton.me"@ + url.skip(n),
{
    reveal_strlit("https://localhost/api/");
    reveal_strlit("http://localhost/api/");
    reveal_strlit("https://");
    reveal_strlit("http://");
    reveal_strlit("tauri://");
    lemma_prefix_char(url, "tauri://"@, 0);
    if has_prefix(url, "https://localhost/api/"@) {
        lemma_prefix_char(url, "https://localhost/api/"@, 0);
    }
    if has_prefix(url, "http://localhost/api/"@) {
        lemma_prefix_char(url, "http://localhost/api/"@, 0);
    }
    if has_prefix(url, "https://"@) {
        lemma_prefix_char(url, "https://"@, 0);
    }
    if has_prefix(url, "http://"@) {
        lemma_prefix_char(url, "http://"@, 0);
    }
    lemma_find_from(url, "/api"@, 0);
}

/// A header value of visible ASCII, spaces and tabs is read character by character; any other is
/// not readable.
pub proof fn law_visible_headers_are_readable(value: Seq<u8>, i: int)
    requires
        0 <= i < value.len(),
    ensures
        (forall|j: int| 0 <= j < value.len() ==> ' ' as u8 <= #[trigger] value[j] <= '~' as u8
            || value[j] == '\t' as u8) ==> {
            &&& header_text(value) is Some
            &&& header_text(value)->0.len() == value.len()
            &&& header_text(value)->0[i] as u32 == value[i] as u32
        },
        value[i] < 9 || 9 < value[i] < 32 || 127 <= value[i] ==> header_text(value) is None,
        header_text(Seq::empty()) == Some(Seq::<char>::empty()),
{
    if forall|j: int| 0 <= j < value.len() ==> ' ' as u8 <= #[trigger] value[j] <= '~' as u8
        || value[j] == '\t' as u8 {
        assert forall|j: int| 0 <= j < value.len() implies is_visible(#[trigger] value[j]) by {}
    }
    assert(Seq::<u8>::empty().map_values(|b: u8| b as char) =~= Seq::<char>::empty());
}

/// Each further header of an answer stores a cookie, or shows the page its value in place of an
/// earlier one of the same name, or changes nothing where it is not readable.
pub proof fn law_answer_headers_are_parted(
    headers: Seq<(Seq<char>, Seq<u8>)>,
    name: Seq<char>,
    value: Seq<u8>,
    text: Seq<char>,
    other: Seq<char>,
)
    requires
        other != name,
    ensures
        page_headers(Seq::empty()) == Map::<Seq<char>, Seq<char>>::empty(),
        stored_cookies(Seq::empty()) == Seq::<Seq<char>>::empty(),
        header_text(value) is None ==> page_headers(headers.push((name, value))) == page_headers(
            headers,
        ) && stored_cookies(headers.push((name, value))) == stored_cookies(headers),
        header_text(value) == Some(text) && ascii_lowered(name) == "set-cookie"@ ==> {
            &&& page_headers(headers.push((name, value))) == page_headers(headers)
            &&& stored_cookies(headers.push((name, value))) == stored_cookies(headers).push(text)
        },
        header_text(value) == Some(text) && ascii_lowered(name) != "set-cookie"@ ==> {
            let before = page_headers(headers);
            let after = page_headers(headers.push((name, value)));
            &&& stored_cookies(headers.push((name, value))) == stored_cookies(headers)
            &&& after.dom().contains(name) && after[name] == text
            &&& after.dom().contains(other) <==> before.dom().contains(other)
            &&& before.dom().contains(other) ==> after[other] == before[other]
        },
{
    assert(headers.push((name, value)).drop_last() =~= headers);
}

} // verus!
