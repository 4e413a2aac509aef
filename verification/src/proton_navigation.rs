//! Recognition of the Proton URLs that steer sign-in.

use crate::percent::{
    encoded_component, form_text, is_component_char, is_form_text, lemma_component_read_back,
    lemma_plain_form_text,
};
use crate::text::{
    chars_of, contains, eq_str, has_infix, has_prefix, has_suffix, law_prefix_is_what_stands_first,
    law_suffix_is_what_stands_last, lemma_prefix_char, lemma_split_concat, lemma_split_single,
    occurs_at, split, starts_with,
};
use crate::web_url::{
    account_return, decoded_pairs, form_pairs, is_account_return, is_decodable, is_query_char,
    name_and_value, opt_str_view, opt_view, pair_views, query_suffix, Url, UrlView,
};
use vstd::prelude::*;

verus! {

/// The hosts of Proton apps that this shell does not carry.
pub open spec fn unsupported_app_host(host: Seq<char>) -> bool {
    ||| host == "calendar.proton.me"@
    ||| host == "contacts.proton.me"@
    ||| host == "docs.proton.me"@
    ||| host == "mail.proton.me"@
    ||| host == "pass.proton.me"@
    ||| host == "wallet.proton.me"@
    ||| host == "vpn.proton.me"@
}

/// The hosts on which the account app finishes a sign-in.
pub open spec fn login_complete_host(host: Option<Seq<char>>) -> bool {
    host == Some("account.proton.me"@) || host == Some("account.localhost"@)
}

/// The hosts under which the shell serves its own pages.
pub open spec fn local_app_host(host: Option<Seq<char>>) -> bool {
    host == Some("localhost"@) || host == Some("tauri.localhost"@)
}

/// The first piece of `s`, up to but not including its first `/`.
pub open spec fn before_slash(s: Seq<char>) -> Seq<char>
    decreases s.len(),
{
    if s.len() == 0 || s[0] == '/' {
        Seq::empty()
    } else {
        seq![s[0]] + before_slash(s.drop_first())
    }
}

/// The Drive root for the user that a path `/u/<id>/...` names, else the plain root.
pub open spec fn drive_root(path: Seq<char>) -> Seq<char> {
    let user = before_slash(path.skip(3));
    if has_prefix(path, "/u/"@) && user.len() > 0 {
        "/u/"@ + user + "/"@
    } else {
        "/"@
    }
}

/// Where a page of an unsupported Proton app is sent instead, if it is one that must not stay.
pub open spec fn unsupported_redirect(url: UrlView) -> Option<Seq<char>> {
    match url.host {
        Some(host) => if unsupported_app_host(host) && !has_prefix(url.path, "/api/"@)
            && !has_prefix(url.path, "/captcha/"@) {
            Some("tauri://localhost"@ + drive_root(url.path))
        } else {
            None
        },
        None => None,
    }
}

/// A path without a leading `/account`.
pub open spec fn account_path(path: Seq<char>) -> Seq<char> {
    if has_prefix(path, "/account"@) {
        path.skip("/account"@.len() as int)
    } else {
        path
    }
}

/// The account app has finished the sign-in and hands over to a Drive route of the user.
pub open spec fn login_complete(url: UrlView) -> bool {
    &&& login_complete_host(url.host) || (local_app_host(url.host) && has_prefix(
        url.path,
        "/account/u/"@,
    ))
    &&& has_prefix(account_path(url.path), "/u/"@)
    &&& has_infix(account_path(url.path), "/drive"@)
}

/// The value of the last pair with the given name.
pub open spec fn last_value(pairs: Seq<(Seq<char>, Seq<char>)>, name: Seq<char>) -> Option<
    Seq<char>,
>
    decreases pairs.len(),
{
    if pairs.len() == 0 {
        None
    } else if pairs.last().0 == name {
        Some(pairs.last().1)
    } else {
        last_value(pairs.drop_last(), name)
    }
}

/// A page of the account app, served by the shell itself.
pub open spec fn local_account_page(url: UrlView) -> bool {
    &&& url.scheme == "tauri"@
    &&& local_app_host(url.host)
    &&& has_prefix(url.path, "/account/"@)
}

/// The verification token and its type that a URL with these query pairs carries back to the
/// account app.
pub open spec fn completion_token(url: UrlView, pairs: Seq<(Seq<char>, Seq<char>)>) -> Option<
    (Seq<char>, Seq<char>),
> {
    match (last_value(pairs, "hv_token"@), last_value(pairs, "hv_type"@)) {
        (Some(token), Some(kind)) => if local_account_page(url) && token.len() > 0 && kind.len()
            > 0 {
            Some((token, kind))
        } else {
            None
        },
        _ => None,
    }
}

/// A frame of the anti-abuse challenge, asked of the shell itself.
pub open spec fn challenge_frame(url: UrlView) -> bool {
    &&& url.scheme == "tauri"@
    &&& local_app_host(url.host)
    &&& has_prefix(url.path, "/api/challenge/"@)
}

/// Whether `host` belongs to a Proton app that this shell does not carry.
pub fn is_unsupported_proton_app_host(host: &str) -> (r: bool)
    ensures
        r == unsupported_app_host(host@),
{
    eq_str(host, "calendar.proton.me") || eq_str(host, "contacts.proton.me") || eq_str(
        host,
        "docs.proton.me",
    ) || eq_str(host, "mail.proton.me") || eq_str(host, "pass.proton.me") || eq_str(
        host,
        "wallet.proton.me",
    ) || eq_str(host, "vpn.proton.me")
}

/// Whether `host` is one on which the account app finishes a sign-in.
pub fn is_account_login_complete_host(host: Option<&str>) -> (r: bool)
    ensures
        r == login_complete_host(opt_str_view(host)),
{
    match host {
        Some(h) => eq_str(h, "account.proton.me") || eq_str(h, "account.localhost"),
        None => false,
    }
}

/// Whether the shell serves its own pages under `host`.
pub fn is_local_app_host(host: Option<&str>) -> (r: bool)
    ensures
        r == local_app_host(opt_str_view(host)),
{
    match host {
        Some(h) => eq_str(h, "localhost") || eq_str(h, "tauri.localhost"),
        None => false,
    }
}

/// The Drive root for the user that a path names, else the plain root.
pub fn drive_root_for_user_path(path: &str) -> (r: String)
    ensures
        r@ == drive_root(path@),
{
    proof {
        reveal_strlit("/u/");
    }
    if starts_with(path, "/u/") {
        let rest = chars_of(path);
        let mut user = String::new();
        let mut i: usize = 3;
        while i < rest.len() && rest[i] != '/'
            invariant
                3 <= i <= rest.len(),
                rest@ == path@,
                before_slash(path@.skip(3)) =~= user@ + before_slash(path@.skip(i as int)),
            decreases rest.len() - i,
        {
            proof {
                assert(path@.skip(i as int).drop_first() =~= path@.skip(i + 1));
                assert(path@.skip(i as int)[0] == path@[i as int]);
            }
            user.push(rest[i]);
            i += 1;
        }
        assert(before_slash(path@.skip(i as int)) =~= Seq::empty());
        assert(user@ =~= before_slash(path@.skip(3)));
        if !user.as_str().is_empty() {
            let mut r = "/u/".to_string();
            r.append(user.as_str());
            r.append("/");
            return r;
        }
    }
    "/".to_string()
}

/// The local Drive URL to open when sign-in lands on a Proton app that this shell does not carry.
pub fn unsupported_app_redirect_url(url: &Url) -> (r: Option<String>)
    ensures
        opt_view(r) == unsupported_redirect(url@),
{
    let host = match url.host_str() {
        Some(h) => h,
        None => return None,
    };
    if !is_unsupported_proton_app_host(host) || starts_with(url.path.as_str(), "/api/")
        || starts_with(url.path.as_str(), "/captcha/") {
        return None;
    }
    let mut r = "tauri://localhost".to_string();
    r.append(drive_root_for_user_path(url.path.as_str()).as_str());
    Some(r)
}

/// The local Drive URL to open when the account app has finished the sign-in.
///
/// The user's route is not kept: a full reload on a deep local path breaks the asset protocol of
/// the web view. Drive restores the route from the persisted session.
pub fn account_login_complete_redirect_url(url: &Url) -> (r: Option<String>)
    ensures
        opt_view(r) == if login_complete(url@) {
            Some("tauri://localhost/"@)
        } else {
            None::<Seq<char>>
        },
{
    let path = url.path.as_str();
    let prefixed = starts_with(path, "/account");
    proof {
        reveal_strlit("/account");
    }
    let stripped = if prefixed {
        path.substring_char(8, path.unicode_len())
    } else {
        path
    };
    assert(stripped@ =~= account_path(path@));
    if !is_account_login_complete_host(url.host_str()) && !(is_local_app_host(url.host_str())
        && starts_with(path, "/account/u/")) {
        return None;
    }
    if !starts_with(stripped, "/u/") || !contains(stripped, "/drive") {
        return None;
    }
    Some("tauri://localhost/".to_string())
}

/// The verification token and its type that `url`, with the query pairs `pairs`, carries back to
/// the account app.
pub fn completion_token_from_pairs(url: &Url, pairs: &Vec<(String, String)>) -> (r: Option<
    (String, String),
>)
    ensures
        match r {
            Some(t) => completion_token(url@, pair_views(pairs@)) == Some((t.0@, t.1@)),
            None => completion_token(url@, pair_views(pairs@)) is None,
        },
{
    if !eq_str(url.scheme.as_str(), "tauri") || !is_local_app_host(url.host_str()) || !starts_with(
        url.path.as_str(),
        "/account/",
    ) {
        return None;
    }
    let ghost all = pair_views(pairs@);
    let mut token: Option<String> = None;
    let mut kind: Option<String> = None;
    let mut i: usize = 0;
    while i < pairs.len()
        invariant
            i <= pairs.len(),
            all == pair_views(pairs@),
            opt_view(token) == last_value(all.take(i as int), "hv_token"@),
            opt_view(kind) == last_value(all.take(i as int), "hv_type"@),
        decreases pairs.len() - i,
    {
        proof {
            assert(all.take(i + 1).drop_last() =~= all.take(i as int));
            assert(all.take(i + 1).last() == (pairs@[i as int].0@, pairs@[i as int].1@));
            reveal_strlit("hv_token");
            reveal_strlit("hv_type");
            assert("hv_token"@.len() != "hv_type"@.len());
        }
        if eq_str(pairs[i].0.as_str(), "hv_token") {
            token = Some(pairs[i].1.clone());
        } else if eq_str(pairs[i].0.as_str(), "hv_type") {
            kind = Some(pairs[i].1.clone());
        }
        i += 1;
    }
    assert(all.take(all.len() as int) =~= all);
    match (token, kind) {
        (Some(t), Some(k)) => {
            if !t.as_str().is_empty() && !k.as_str().is_empty() {
                Some((t, k))
            } else {
                None
            }
        },
        _ => None,
    }
}

/// The verification token carried by the only supported hand-off at the end of a CAPTCHA.
///
/// Leaving the verification page is no sign of completion: the web view navigates to internal
/// pages while the verification is still going on.
pub fn captcha_completion_token(url: &Url) -> (r: Option<(String, String)>)
    ensures
        match r {
            Some(t) => completion_token(url@, form_pairs(url@.query_text())) == Some((t.0@, t.1@)),
            None => completion_token(url@, form_pairs(url@.query_text())) is None,
        },
        is_decodable(url@.query_text()) ==> match r {
            Some(t) => completion_token(url@, decoded_pairs(url@.query_text())) == Some(
                (t.0@, t.1@),
            ),
            None => completion_token(url@, decoded_pairs(url@.query_text())) is None,
        },
{
    let pairs = url.query_pairs();
    completion_token_from_pairs(url, &pairs)
}

/// Whether `url` is a frame of the anti-abuse challenge, asked of the shell itself.
///
/// These are the only `/api/` paths that the web view may navigate to.
pub fn is_challenge_frame_url(url: &Url) -> (r: bool)
    ensures
        r == challenge_frame(url@),
{
    eq_str(url.scheme.as_str(), "tauri") && is_local_app_host(url.host_str()) && starts_with(
        url.path.as_str(),
        "/api/challenge/",
    )
}

/// The URL from which the page of a challenge frame is fetched.
pub fn challenge_frame_source_url(url: &Url) -> (r: String)
    ensures
        r@ == "https://account.proton.me"@ + url@.path + query_suffix(url@.query),
{
    let mut r = "https://account.proton.me".to_string();
    r.append(url.path.as_str());
    r.append(url.query_suffix().as_str());
    r
}

/// A page of a user leads to the Drive root of that user, and a Drive root to itself.
pub proof fn law_drive_root_keeps_the_user(user: Seq<char>, rest: Seq<char>)
    requires
        user.len() > 0,
        !user.contains('/'),
    ensures
        drive_root("/u/"@ + user + "/"@ + rest) == "/u/"@ + user + "/"@,
        drive_root("/u/"@ + user) == "/u/"@ + user + "/"@,
        drive_root("/u/"@ + user + "/"@) == "/u/"@ + user + "/"@,
        drive_root("/"@) == "/"@,
{
    reveal_strlit("/u/");
    reveal_strlit("/");
    let slash = "/"@;
    assert(("/u/"@ + user + slash + rest).skip(3) =~= user + (slash + rest));
    assert(("/u/"@ + user).skip(3) =~= user + Seq::empty());
    assert(("/u/"@ + user + slash).skip(3) =~= user + slash);
    lemma_before_slash(user, slash + rest);
    lemma_before_slash(user, Seq::empty());
    lemma_before_slash(user, slash);
    assert(has_prefix("/u/"@ + user + slash + rest, "/u/"@));
    assert(has_prefix("/u/"@ + user, "/u/"@));
    assert(has_prefix("/u/"@ + user + slash, "/u/"@));
}

/// What stands before the first slash.
proof fn lemma_before_slash(name: Seq<char>, rest: Seq<char>)
    requires
        !name.contains('/'),
        rest.len() == 0 || rest[0] == '/',
    ensures
        before_slash(name + rest) == name,
    decreases name.len(),
{
    if name.len() == 0 {
        assert(name + rest =~= rest);
        assert(before_slash(rest) =~= name);
    } else {
        assert(name.contains(name[0]));
        let tail = name.drop_first();
        assert forall|c: char| tail.contains(c) implies name.contains(c) by {
            let i = choose|i: int| 0 <= i < tail.len() && tail[i] == c;
            assert(name[i + 1] == c);
        }
        assert((name + rest).drop_first() =~= tail + rest);
        lemma_before_slash(tail, rest);
        assert(seq![name[0]] + tail =~= name);
    }
}

/// Pages of the API and of a CAPTCHA are never taken for pages of an unsupported app, and neither
/// are those of Drive.
pub proof fn law_redirect_spares_api_captcha_and_drive(url: UrlView)
    requires
        has_prefix(url.path, "/api/"@) || has_prefix(url.path, "/captcha/"@) || url.host == Some(
            "drive.proton.me"@,
        ),
    ensures
        unsupported_redirect(url) is None,
{
    reveal_strlit("drive.proton.me");
    reveal_strlit("calendar.proton.me");
    reveal_strlit("contacts.proton.me");
    reveal_strlit("docs.proton.me");
    reveal_strlit("mail.proton.me");
    reveal_strlit("pass.proton.me");
    reveal_strlit("wallet.proton.me");
    reveal_strlit("vpn.proton.me");
    assert("drive.proton.me"@.len() == 15);
}

/// The pages that the CAPTCHA itself navigates to carry no verification token: neither an internal
/// page nor one of another host completes it.
pub proof fn law_captcha_pages_carry_no_token(
    url: UrlView,
    pairs: Seq<(Seq<char>, Seq<char>)>,
)
    requires
        url.scheme != "tauri"@ || !local_app_host(url.host),
    ensures
        completion_token(url, pairs) is None,
{
}

/// A token and a type that hold nothing special come out of the hand-off as they were put in, even
/// where they are not encoded.
pub proof fn law_plain_token_is_handed_over(url: UrlView, token: Seq<char>, kind: Seq<char>)
    requires
        local_account_page(url),
        url.query == Some("hv_token="@ + token + "&hv_type="@ + kind),
        token.len() > 0,
        kind.len() > 0,
        !token.contains('&') && !token.contains('+') && !token.contains('%'),
        !kind.contains('&') && !kind.contains('+') && !kind.contains('%'),
    ensures
        is_decodable(url.query_text()),
        completion_token(url, decoded_pairs(url.query_text())) == Some((token, kind)),
{
    lemma_plain_form_text(token);
    lemma_plain_form_text(kind);
    lemma_handed_over(url, token, kind);
}

/// The URL with which the page of a CAPTCHA returns to the account app, the token and its type
/// encoded with `encodeURIComponent`.
pub open spec fn completion_url(token: Seq<char>, kind: Seq<char>) -> Seq<char> {
    "tauri://localhost/account/?hv_token="@ + encoded_component(token) + "&hv_type="@
        + encoded_component(kind)
}

/// Any token and any type come out of the hand-off as they were put in: the URL with which the page
/// of a CAPTCHA returns is taken apart as it stands, its query can be decoded, and what it carries
/// is the token and the type.
pub proof fn law_any_token_is_handed_over(token: Seq<char>, kind: Seq<char>)
    requires
        token.len() > 0,
        kind.len() > 0,
    ensures
        is_account_return(completion_url(token, kind)),
        is_decodable(account_return(completion_url(token, kind)).query_text()),
        completion_token(
            account_return(completion_url(token, kind)),
            decoded_pairs(account_return(completion_url(token, kind)).query_text()),
        ) == Some((token, kind)),
{
    reveal_strlit("tauri://localhost/account/?hv_token=");
    reveal_strlit("tauri://localhost/account/?");
    reveal_strlit("hv_token=");
    reveal_strlit("&hv_type=");
    reveal_strlit("/account/");
    let t = encoded_component(token);
    let k = encoded_component(kind);
    lemma_component_read_back(token);
    lemma_component_read_back(kind);
    let text = completion_url(token, kind);
    let url = account_return(text);
    let query = "hv_token="@ + t + "&hv_type="@ + k;
    assert(text.subrange(0, 27) =~= "tauri://localhost/account/?"@);
    assert(text.skip(27) =~= query);
    assert forall|i: int| 27 <= i < text.len() implies is_query_char(#[trigger] text[i]) by {
        let j = i - 27;
        assert(text[i] == query[j]);
        if 9 <= j < 9 + t.len() {
            assert(query[j] == t[j - 9]);
        } else if 18 + t.len() <= j {
            assert(query[j] == k[j - 18 - t.len()]);
        }
    }
    assert(!t.contains('&')) by {
        if t.contains('&') {
            let i = choose|i: int| 0 <= i < t.len() && t[i] == '&';
            assert(is_component_char(t[i]));
        }
    }
    assert(!k.contains('&')) by {
        if k.contains('&') {
            let i = choose|i: int| 0 <= i < k.len() && k[i] == '&';
            assert(is_component_char(k[i]));
        }
    }
    assert(has_prefix(url.path, "/account/"@)) by {
        assert(url.path.subrange(0, url.path.len() as int) =~= url.path);
    }
    lemma_handed_over(url, t, k);
}

/// What is read out of a query that hands over a token and a type.
#[verifier::spinoff_prover]
proof fn lemma_handed_over(url: UrlView, token: Seq<char>, kind: Seq<char>)
    requires
        local_account_page(url),
        url.query == Some("hv_token="@ + token + "&hv_type="@ + kind),
        !token.contains('&'),
        !kind.contains('&'),
        is_form_text(token) && form_text(token).len() > 0,
        is_form_text(kind) && form_text(kind).len() > 0,
    ensures
        is_decodable(url.query_text()),
        completion_token(url, decoded_pairs(url.query_text())) == Some(
            (form_text(token), form_text(kind)),
        ),
{
    reveal_strlit("hv_token=");
    reveal_strlit("hv_token");
    reveal_strlit("&hv_type=");
    reveal_strlit("hv_type");
    reveal_strlit("hv_type=");
    let q = url.query_text();
    let a = "hv_token="@ + token;
    let b = "hv_type="@ + kind;
    assert(q =~= a.push('&') + b);
    assert(!a.contains('&')) by {
        if a.contains('&') {
            let i = choose|i: int| 0 <= i < a.len() && a[i] == '&';
            if i >= 9 {
                assert(token[i - 9] == '&');
            }
        }
    }
    assert(!b.contains('&')) by {
        if b.contains('&') {
            let i = choose|i: int| 0 <= i < b.len() && b[i] == '&';
            if i >= 8 {
                assert(kind[i - 8] == '&');
            }
        }
    }
    lemma_split_concat(a, b, '&');
    lemma_split_single(a, '&');
    lemma_split_single(b, '&');
    let pieces = split(q, '&');
    assert(pieces =~= seq![a, b]);
    let nonempty = |piece: Seq<char>| piece.len() > 0;
    reveal(Seq::filter);
    assert(pieces.drop_last() =~= seq![a]);
    assert(pieces.drop_last().drop_last() =~= Seq::empty());
    assert(Seq::<Seq<char>>::empty().filter(nonempty) =~= Seq::empty());
    assert(pieces.drop_last().filter(nonempty) =~= seq![a]);
    assert(pieces.filter(nonempty) =~= seq![a, b]);
    lemma_name_and_value("hv_token"@, token);
    lemma_name_and_value("hv_type"@, kind);
    assert(a =~= "hv_token"@.push('=') + token);
    assert(b =~= "hv_type"@.push('=') + kind);
    lemma_plain_form_text("hv_token"@);
    lemma_plain_form_text("hv_type"@);
    let pairs = decoded_pairs(q);
    assert(pairs =~= seq![("hv_token"@, form_text(token)), ("hv_type"@, form_text(kind))]);
    assert("hv_token"@.len() != "hv_type"@.len());
    assert(pairs.drop_last() =~= seq![("hv_token"@, form_text(token))]);
    reveal_with_fuel(last_value, 3);
}

/// The parts of `name=value` are `name` and `value`.
proof fn lemma_name_and_value(name: Seq<char>, value: Seq<char>)
    requires
        !name.contains('='),
    ensures
        name_and_value(name.push('=') + value) == (name, value),
{
    let s = name.push('=') + value;
    assert(s[name.len() as int] == '=');
    assert(s.contains('='));
    s.index_of_first_ensures('=');
    let i = s.index_of_first('=')->0;
    if i < name.len() {
        assert(name[i] == '=');
    }
    assert(i == name.len());
    assert(s.take(i) =~= name);
    assert(s.skip(i + 1) =~= value);
}

/// The apps that this shell does not carry are those for calendars, contacts, documents, mail,
/// passwords, wallets and the VPN, under their names in the domain of Proton, and no others.
pub proof fn law_apps_that_are_not_carried(app: Seq<char>, host: Seq<char>)
    ensures
        ({
            ||| app == "calendar"@
            ||| app == "contacts"@
            ||| app == "docs"@
            ||| app == "mail"@
            ||| app == "pass"@
            ||| app == "wallet"@
            ||| app == "vpn"@
        }) ==> unsupported_app_host(app + ".proton.me"@),
        unsupported_app_host(host) ==> {
            ||| host == "calendar"@ + ".proton.me"@
            ||| host == "contacts"@ + ".proton.me"@
            ||| host == "docs"@ + ".proton.me"@
            ||| host == "mail"@ + ".proton.me"@
            ||| host == "pass"@ + ".proton.me"@
            ||| host == "wallet"@ + ".proton.me"@
            ||| host == "vpn"@ + ".proton.me"@
        },
{
    reveal_strlit(".proton.me");
    reveal_strlit("calendar");
    reveal_strlit("contacts");
    reveal_strlit("docs");
    reveal_strlit("mail");
    reveal_strlit("pass");
    reveal_strlit("wallet");
    reveal_strlit("vpn");
    reveal_strlit("calendar.proton.me");
    reveal_strlit("contacts.proton.me");
    reveal_strlit("docs.proton.me");
    reveal_strlit("mail.proton.me");
    reveal_strlit("pass.proton.me");
    reveal_strlit("wallet.proton.me");
    reveal_strlit("vpn.proton.me");
    assert("calendar.proton.me"@ =~= "calendar"@ + ".proton.me"@);
    assert("contacts.proton.me"@ =~= "contacts"@ + ".proton.me"@);
    assert("docs.proton.me"@ =~= "docs"@ + ".proton.me"@);
    assert("mail.proton.me"@ =~= "mail"@ + ".proton.me"@);
    assert("pass.proton.me"@ =~= "pass"@ + ".proton.me"@);
    assert("wallet.proton.me"@ =~= "wallet"@ + ".proton.me"@);
    assert("vpn.proton.me"@ =~= "vpn"@ + ".proton.me"@);
}

/// The shell serves its pages under `localhost`, alone or behind `tauri.`; the account app finishes
/// a sign-in under `account.`, in the domain of Proton or locally.
pub proof fn law_hosts_of_the_shell_and_the_account_app(host: Seq<char>)
    ensures
        local_app_host(Some(host)) <==> host == "localhost"@ || host == "tauri."@ + "localhost"@,
        login_complete_host(Some(host)) <==> host == "account."@ + "proton.me"@ || host
            == "account."@ + "localhost"@,
        !local_app_host(None),
        !login_complete_host(None),
{
    reveal_strlit("localhost");
    reveal_strlit("tauri.");
    reveal_strlit("tauri.localhost");
    reveal_strlit("account.");
    reveal_strlit("proton.me");
    reveal_strlit("account.proton.me");
    reveal_strlit("account.localhost");
    assert("tauri.localhost"@ =~= "tauri."@ + "localhost"@);
    assert("account.proton.me"@ =~= "account."@ + "proton.me"@);
    assert("account.localhost"@ =~= "account."@ + "localhost"@);
}

/// Only a page of a user leads to the Drive root of a user; every other page leads to the plain
/// root.
pub proof fn law_other_pages_lead_to_the_plain_root(path: Seq<char>, rest: Seq<char>)
    ensures
        !has_prefix(path, "/u/"@) ==> drive_root(path) == "/"@,
        drive_root("/u/"@) == "/"@,
        drive_root("/u/"@ + "/"@ + rest) == "/"@,
{
    reveal_strlit("/u/");
    reveal_strlit("/");
    assert("/u/"@.skip(3) =~= Seq::empty());
    assert(("/u/"@ + "/"@ + rest).skip(3)[0] == '/');
}

/// Pages of the apps that this shell does not carry lead to Drive: to the root of the user that
/// their path names, or else to the plain root. Pages of other hosts lead nowhere else.
pub proof fn law_pages_of_other_apps_lead_to_drive(
    url: UrlView,
    app: Seq<char>,
    user: Seq<char>,
    rest: Seq<char>,
)
    requires
        ({
            ||| app == "calendar"@
            ||| app == "contacts"@
            ||| app == "docs"@
            ||| app == "mail"@
            ||| app == "pass"@
            ||| app == "wallet"@
            ||| app == "vpn"@
        }),
        user.len() > 0 && !user.contains('/'),
    ensures
        url.host == Some(app + ".proton.me"@) && url.path == "/u/"@ + user + "/"@ + rest
            ==> unsupported_redirect(url) == Some("tauri://localhost/u/"@ + user + "/"@),
        url.host == Some(app + ".proton.me"@) && !has_prefix(url.path, "/u/"@) && !has_prefix(
            url.path,
            "/api/"@,
        ) && !has_prefix(url.path, "/captcha/"@) ==> unsupported_redirect(url) == Some(
            "tauri://localhost/"@,
        ),
        url.host is None ==> unsupported_redirect(url) is None,
        url.host is Some && !has_suffix(url.host->0, ".proton.me"@) ==> unsupported_redirect(
            url,
        ) is None,
{
    law_apps_that_are_not_carried(app, url.host->0);
    law_other_pages_lead_to_the_plain_root(url.path, rest);
    law_drive_root_keeps_the_user(user, rest);
    reveal_strlit("/u/");
    reveal_strlit("/api/");
    reveal_strlit("/captcha/");
    reveal_strlit("/");
    reveal_strlit("tauri://localhost");
    reveal_strlit("tauri://localhost/");
    reveal_strlit("tauri://localhost/u/");
    assert("tauri://localhost"@ + "/"@ =~= "tauri://localhost/"@);
    if url.path == "/u/"@ + user + "/"@ + rest {
        assert(url.path[1] == 'u');
        if has_prefix(url.path, "/api/"@) {
            lemma_prefix_char(url.path, "/api/"@, 1);
        }
        if has_prefix(url.path, "/captcha/"@) {
            lemma_prefix_char(url.path, "/captcha/"@, 1);
        }
        assert("tauri://localhost"@ + ("/u/"@ + user + "/"@) =~= "tauri://localhost/u/"@ + user
            + "/"@);
    }
    if url.host is Some {
        law_suffix_is_what_stands_last(url.host->0, ".proton.me"@, "calendar"@);
        law_suffix_is_what_stands_last(url.host->0, ".proton.me"@, "contacts"@);
        law_suffix_is_what_stands_last(url.host->0, ".proton.me"@, "docs"@);
        law_suffix_is_what_stands_last(url.host->0, ".proton.me"@, "mail"@);
        law_suffix_is_what_stands_last(url.host->0, ".proton.me"@, "pass"@);
        law_suffix_is_what_stands_last(url.host->0, ".proton.me"@, "wallet"@);
        law_suffix_is_what_stands_last(url.host->0, ".proton.me"@, "vpn"@);
    }
}

/// A sign-in is finished exactly on a page of a user that names Drive: below the account app on any
/// host that serves it, or at the root of a host that serves nothing else.
pub proof fn law_finished_sign_ins(url: UrlView)
    ensures
        login_complete(url) <==> has_infix(url.path, "/drive"@) && {
            ||| has_prefix(url.path, "/account/u/"@) && (url.host == Some("localhost"@) || url.host
                == Some("tauri.localhost"@) || url.host == Some("account.localhost"@) || url.host
                == Some("account.proton.me"@))
            ||| has_prefix(url.path, "/u/"@) && (url.host == Some("account.localhost"@) || url.host
                == Some("account.proton.me"@))
        },
{
    reveal_strlit("/account");
    reveal_strlit("/account/u/");
    reveal_strlit("/u/");
    reveal_strlit("/drive");
    let path = url.path;
    if has_prefix(path, "/account"@) {
        let tail = path.skip(8);
        assert(path =~= "/account"@ + tail) by {
            assert(path =~= path.subrange(0, 8) + tail);
        }
        assert(has_prefix(path, "/account/u/"@) <==> has_prefix(tail, "/u/"@)) by {
            if has_prefix(path, "/account/u/"@) {
                assert(tail.subrange(0, 3) =~= path.subrange(0, 11).subrange(8, 11));
                assert("/account/u/"@.subrange(8, 11) =~= "/u/"@);
            }
            if has_prefix(tail, "/u/"@) {
                assert(path.subrange(0, 11) =~= "/account"@ + tail.subrange(0, 3));
                assert("/account/u/"@ =~= "/account"@ + "/u/"@);
            }
        }
        assert(has_infix(path, "/drive"@) <==> has_infix(tail, "/drive"@)) by {
            if has_infix(path, "/drive"@) {
                let i = choose|i: int| occurs_at(path, "/drive"@, i);
                assert(path.subrange(i, i + 6)[0] == '/');
                assert(path.subrange(i, i + 6)[1] == 'd');
                assert(path[i] == '/' && path[i + 1] == 'd');
                assert(i >= 8) by {
                    if i < 8 {
                        assert("/account"@[i] == '/');
                        assert(i == 0);
                        assert(path[1] == 'a');
                    }
                }
                assert(tail.subrange(i - 8, i - 2) =~= path.subrange(i, i + 6));
                assert(occurs_at(tail, "/drive"@, i - 8));
            }
            if has_infix(tail, "/drive"@) {
                let i = choose|i: int| occurs_at(tail, "/drive"@, i);
                assert(path.subrange(i + 8, i + 14) =~= tail.subrange(i, i + 6));
                assert(occurs_at(path, "/drive"@, i + 8));
            }
        }
        lemma_prefix_char(path, "/account"@, 1);
        if has_prefix(path, "/u/"@) {
            lemma_prefix_char(path, "/u/"@, 1);
        }
    } else if has_prefix(path, "/account/u/"@) {
        assert(path.subrange(0, 8) =~= path.subrange(0, 11).subrange(0, 8));
        assert("/account/u/"@.subrange(0, 8) =~= "/account"@);
    }
}

/// Of several pairs with one name the last counts, and pairs with other names do not matter.
pub proof fn law_last_pair_counts(
    pairs: Seq<(Seq<char>, Seq<char>)>,
    name: Seq<char>,
    other: Seq<char>,
    value: Seq<char>,
)
    ensures
        last_value(Seq::empty(), name) is None,
        last_value(pairs.push((name, value)), name) == Some(value),
        other != name ==> last_value(pairs.push((other, value)), name) == last_value(pairs, name),
{
    assert(pairs.push((name, value)).drop_last() =~= pairs);
    assert(pairs.push((other, value)).drop_last() =~= pairs);
}

/// A local page of the account app hands over the token and the type that its query holds, in
/// whichever order and whatever else it holds; where either is missing or empty it hands over
/// nothing, and neither does any other page.
pub proof fn law_tokens_are_handed_over_by_account_pages(
    url: UrlView,
    pairs: Seq<(Seq<char>, Seq<char>)>,
    token: Seq<char>,
    kind: Seq<char>,
    rest: Seq<char>,
    other: (Seq<char>, Seq<char>),
)
    requires
        token.len() > 0,
        kind.len() > 0,
        other.0 != "hv_token"@ && other.0 != "hv_type"@,
    ensures
        url.scheme == "tauri"@ && (url.host == Some("localhost"@) || url.host == Some(
            "tauri.localhost"@,
        )) && url.path == "/account/"@ + rest ==> {
            let given = pairs.push(("hv_token"@, token)).push(("hv_type"@, kind));
            let turned = pairs.push(("hv_type"@, kind)).push(("hv_token"@, token));
            &&& completion_token(url, given) == Some((token, kind))
            &&& completion_token(url, turned) == Some((token, kind))
            &&& completion_token(url, given.push(other)) == Some((token, kind))
            &&& completion_token(url, pairs.push(other)) == completion_token(url, pairs)
        },
        url.scheme != "tauri"@ ==> completion_token(url, pairs) is None,
        url.host != Some("localhost"@) && url.host != Some("tauri.localhost"@) ==> completion_token(
            url,
            pairs,
        ) is None,
        !has_prefix(url.path, "/account/"@) ==> completion_token(url, pairs) is None,
        completion_token(url, Seq::empty()) is None,
        completion_token(url, pairs.push(("hv_token"@, Seq::empty()))) is None,
        completion_token(url, pairs.push(("hv_type"@, Seq::empty()))) is None,
        completion_token(url, Seq::empty().push(("hv_token"@, token))) is None,
        completion_token(url, Seq::empty().push(("hv_type"@, kind))) is None,
{
    reveal_strlit("hv_token");
    reveal_strlit("hv_type");
    assert("hv_token"@.len() != "hv_type"@.len());
    let t = "hv_token"@;
    let k = "hv_type"@;
    let none = Seq::<(Seq<char>, Seq<char>)>::empty();
    let given = pairs.push((t, token)).push((k, kind));
    law_last_pair_counts(pairs, t, k, token);
    law_last_pair_counts(pairs.push((t, token)), k, k, kind);
    law_last_pair_counts(pairs.push((t, token)), t, k, kind);
    law_last_pair_counts(pairs, k, k, kind);
    law_last_pair_counts(pairs.push((k, kind)), t, t, token);
    law_last_pair_counts(pairs.push((k, kind)), k, t, token);
    law_last_pair_counts(given, t, other.0, other.1);
    law_last_pair_counts(given, k, other.0, other.1);
    law_last_pair_counts(pairs, t, other.0, other.1);
    law_last_pair_counts(pairs, k, other.0, other.1);
    law_last_pair_counts(pairs, t, t, Seq::empty());
    law_last_pair_counts(pairs, k, k, Seq::empty());
    law_last_pair_counts(none, k, t, token);
    law_last_pair_counts(none, t, k, kind);
    law_prefix_is_what_stands_first(url.path, "/account/"@, rest);
}

/// The frames of the challenge are the pages below `/api/challenge/` that the shell serves itself.
pub proof fn law_frames_of_the_challenge(url: UrlView, rest: Seq<char>)
    ensures
        url.scheme == "tauri"@ && (url.host == Some("localhost"@) || url.host == Some(
            "tauri.localhost"@,
        )) && url.path == "/api/challenge/"@ + rest ==> challenge_frame(url),
        url.scheme != "tauri"@ ==> !challenge_frame(url),
        url.host != Some("localhost"@) && url.host != Some("tauri.localhost"@)
            ==> !challenge_frame(url),
        !has_prefix(url.path, "/api/challenge/"@) ==> !challenge_frame(url),
{
    law_prefix_is_what_stands_first(url.path, "/api/challenge/"@, rest);
}

} // verus!
