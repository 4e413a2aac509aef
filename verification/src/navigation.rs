//! The rules by which the web view may navigate.

use crate::proton_navigation::{
    account_login_complete_redirect_url, captcha_completion_token, challenge_frame,
    completion_token, completion_url, is_challenge_frame_url, is_local_app_host,
    law_any_token_is_handed_over, law_apps_that_are_not_carried, law_finished_sign_ins,
    law_pages_of_other_apps_lead_to_drive, local_account_page, local_app_host, login_complete,
    unsupported_app_redirect_url, unsupported_redirect,
};
use crate::sync_file::lemma_filter_all;
use crate::text::{
    ends_with, eq_str, has_infix, has_prefix, has_suffix, join, join_strings,
    law_infix_is_what_stands_between, law_pieces_stand_between_separators,
    law_prefix_is_what_stands_first, law_suffix_is_what_stands_last, lemma_join_concat,
    lemma_join_first, lemma_prefix_char, lemma_split_join, lemma_split_nonempty, lemma_split_single,
    occurs_at, split, split_at_char, starts_with, views,
};
use crate::web_url::{
    account_return, decoded_pairs, form_pairs, is_decodable, law_query_follows_a_question_mark,
    opt_pair_view, opt_str_view, query_suffix, Url, UrlView,
};
use vstd::prelude::*;

verus! {

/// What the shell does about a navigation that the web view asks for.
#[derive(Debug)]
pub enum NavigationAction {
    /// Block it, and have the page save the blob behind this URL as a download.
    SaveBlob { blob_url: String },
    /// Block it, and open this URL instead.
    Redirect { target: String },
    /// Block it, leave the account page, and then open this URL.
    FinishLogin { target: String },
    /// Block it, keep the verification token, and open the account app.
    AcceptCaptcha { token: String, token_type: String },
    /// Let it go on, into a CAPTCHA.
    EnterCaptcha,
    /// Let it go on.
    Allow,
    /// Block it.
    Block,
}

/// The mathematical counterpart of [`NavigationAction`].
pub enum NavigationView {
    SaveBlob { blob_url: Seq<char> },
    Redirect { target: Seq<char> },
    FinishLogin { target: Seq<char> },
    AcceptCaptcha { token: Seq<char>, token_type: Seq<char> },
    EnterCaptcha,
    Allow,
    Block,
}

impl View for NavigationAction {
    type V = NavigationView;

    open spec fn view(&self) -> NavigationView {
        match self {
            NavigationAction::SaveBlob { blob_url } => NavigationView::SaveBlob {
                blob_url: blob_url@,
            },
            NavigationAction::Redirect { target } => NavigationView::Redirect { target: target@ },
            NavigationAction::FinishLogin { target } => NavigationView::FinishLogin {
                target: target@,
            },
            NavigationAction::AcceptCaptcha { token, token_type } => NavigationView::AcceptCaptcha {
                token: token@,
                token_type: token_type@,
            },
            NavigationAction::EnterCaptcha => NavigationView::EnterCaptcha,
            NavigationAction::Allow => NavigationView::Allow,
            NavigationAction::Block => NavigationView::Block,
        }
    }
}

impl NavigationView {
    /// The web view goes on to the page it asked for.
    pub open spec fn allows(self) -> bool {
        self is EnterCaptcha || self is Allow
    }
}

impl NavigationAction {
    /// Whether the web view goes on to the page it asked for.
    pub fn allows(&self) -> (r: bool)
        ensures
            r == self@.allows(),
    {
        match self {
            NavigationAction::EnterCaptcha | NavigationAction::Allow => true,
            _ => false,
        }
    }
}

/// A piece of a sign-in query that survives the hand-over to the local account app: it does not
/// speak of an expired session.
pub open spec fn kept_login_part(part: Seq<char>) -> bool {
    !has_prefix(part, "reason="@) && !has_prefix(part, "type="@)
}

/// The pieces of a sign-in query that survive.
pub open spec fn kept_login_parts(query: Option<Seq<char>>) -> Seq<Seq<char>> {
    match query {
        Some(q) => split(q, '&').filter(|part: Seq<char>| kept_login_part(part)),
        None => Seq::empty(),
    }
}

/// The local page for a sign-in with this query: the account app, told to return to Drive.
pub open spec fn login_target(query: Option<Seq<char>>) -> Seq<char> {
    "tauri://localhost/account/?"@ + join(seq!["product=drive"@] + kept_login_parts(query), "&"@)
}

/// A host of the hCaptcha widget.
pub open spec fn hcaptcha_host(host: Option<Seq<char>>) -> bool {
    match host {
        Some(h) => h == "hcaptcha.com"@ || has_suffix(h, ".hcaptcha.com"@),
        None => false,
    }
}

/// A page of a CAPTCHA.
pub open spec fn captcha_page(url: UrlView) -> bool {
    ||| url.host == Some("mail.proton.me"@) && (has_prefix(url.path, "/api/core/v4/captcha"@)
        || has_prefix(url.path, "/captcha/"@))
    ||| url.host == Some("verify.proton.me"@)
    ||| url.host == Some("verify-api.proton.me"@)
}

/// The rules of navigation, the first that applies deciding. `on_captcha` says whether the web
/// view is inside a CAPTCHA, `completion` what verification token the URL carries.
pub open spec fn navigation_rule(
    url: UrlView,
    on_captcha: bool,
    completion: Option<(Seq<char>, Seq<char>)>,
) -> NavigationView {
    if url.scheme == "blob"@ {
        NavigationView::SaveBlob { blob_url: url.text }
    } else if has_prefix(url.path, "/login"@) {
        NavigationView::Redirect { target: login_target(url.query) }
    } else if url.host == Some("account.proton.me"@) {
        NavigationView::Redirect {
            target: "tauri://localhost/account"@ + url.path + query_suffix(url.query),
        }
    } else if url.host == Some("drive.proton.me"@) {
        NavigationView::Redirect {
            target: "tauri://localhost"@ + url.path + query_suffix(url.query),
        }
    } else if login_complete(url) {
        NavigationView::FinishLogin { target: "tauri://localhost/"@ }
    } else if hcaptcha_host(url.host) {
        NavigationView::Allow
    } else if on_captcha && completion is Some {
        let (token, token_type) = completion->0;
        NavigationView::AcceptCaptcha { token, token_type }
    } else if on_captcha && url.scheme == "tauri"@ && url.host == Some("localhost"@) && has_prefix(
        url.path,
        "/account/"@,
    ) {
        NavigationView::Block
    } else if captcha_page(url) {
        NavigationView::EnterCaptcha
    } else if on_captcha && url.scheme == "about"@ {
        NavigationView::Allow
    } else if unsupported_redirect(url) is Some {
        NavigationView::Redirect { target: unsupported_redirect(url)->0 }
    } else if challenge_frame(url) {
        NavigationView::Allow
    } else if has_prefix(url.path, "/api/"@) {
        NavigationView::Block
    } else if url.scheme == "tauri"@ || url.scheme == "about"@ || local_app_host(url.host) {
        NavigationView::Allow
    } else {
        NavigationView::Block
    }
}

/// The local page for a sign-in with the query of `url`.
pub fn login_target_url(url: &Url) -> (r: String)
    ensures
        r@ == login_target(url@.query),
{
    let mut parts: Vec<String> = Vec::new();
    parts.push("product=drive".to_string());
    let ghost keep = |part: Seq<char>| kept_login_part(part);
    assert(views(parts@) =~= seq!["product=drive"@] + Seq::<Seq<char>>::empty());
    if let Some(q) = &url.query {
        let pieces = split_at_char(q.as_str(), '&');
        let ghost all = views(pieces@);
        let mut i: usize = 0;
        assert(all.take(0).filter(keep) =~= Seq::empty()) by {
            reveal(Seq::filter);
        }
        while i < pieces.len()
            invariant
                i <= pieces.len(),
                all == views(pieces@),
                keep == (|part: Seq<char>| kept_login_part(part)),
                views(parts@) == seq!["product=drive"@] + all.take(i as int).filter(keep),
            decreases pieces.len() - i,
        {
            let ghost before = parts@;
            proof {
                assert(all.take(i + 1).drop_last() =~= all.take(i as int));
                assert(all.take(i + 1).last() == pieces@[i as int]@);
                reveal(Seq::filter);
            }
            if !starts_with(pieces[i].as_str(), "reason=") && !starts_with(
                pieces[i].as_str(),
                "type=",
            ) {
                parts.push(pieces[i].clone());
                assert(views(parts@) =~= views(before).push(pieces@[i as int]@));
            }
            i += 1;
        }
        assert(all.take(all.len() as int) =~= all);
    }
    let mut r = "tauri://localhost/account/?".to_string();
    r.append(join_strings(&parts, "&").as_str());
    r
}

/// Whether `host` belongs to the hCaptcha widget.
fn is_hcaptcha_host(host: Option<&str>) -> (r: bool)
    ensures
        r == hcaptcha_host(opt_str_view(host)),
{
    match host {
        Some(h) => eq_str(h, "hcaptcha.com") || ends_with(h, ".hcaptcha.com"),
        None => false,
    }
}

/// Whether `url` is a page of a CAPTCHA.
fn is_captcha_page(url: &Url) -> (r: bool)
    ensures
        r == captcha_page(url@),
{
    (has_host(url, "mail.proton.me") && (starts_with(url.path.as_str(), "/api/core/v4/captcha")
        || starts_with(url.path.as_str(), "/captcha/"))) || has_host(url, "verify.proton.me")
        || has_host(url, "verify-api.proton.me")
}

/// Whether the host of `url` is `name`.
fn has_host(url: &Url, name: &str) -> (r: bool)
    ensures
        r == (url@.host == Some(name@)),
{
    match url.host_str() {
        Some(h) => eq_str(h, name),
        None => false,
    }
}

/// `base` followed by the path and the query of `url`.
fn rebased(base: &str, url: &Url) -> (r: String)
    ensures
        r@ == base@ + url@.path + query_suffix(url@.query),
{
    let mut r = base.to_string();
    r.append(url.path.as_str());
    r.append(url.query_suffix().as_str());
    r
}

/// Decides about a navigation, given the verification token that the URL carries.
pub fn navigation_for(url: &Url, on_captcha: bool, completion: Option<(String, String)>) -> (r:
    NavigationAction)
    ensures
        r@ == navigation_rule(url@, on_captcha, opt_pair_view(completion)),
{
    let scheme = url.scheme.as_str();
    let path = url.path.as_str();
    if eq_str(scheme, "blob") {
        return NavigationAction::SaveBlob { blob_url: url.text.clone() };
    }
    if starts_with(path, "/login") {
        return NavigationAction::Redirect { target: login_target_url(url) };
    }
    if has_host(url, "account.proton.me") {
        return NavigationAction::Redirect { target: rebased("tauri://localhost/account", url) };
    }
    if has_host(url, "drive.proton.me") {
        return NavigationAction::Redirect { target: rebased("tauri://localhost", url) };
    }
    if let Some(target) = account_login_complete_redirect_url(url) {
        return NavigationAction::FinishLogin { target };
    }
    if is_hcaptcha_host(url.host_str()) {
        return NavigationAction::Allow;
    }
    if on_captcha {
        if let Some((token, token_type)) = completion {
            return NavigationAction::AcceptCaptcha { token, token_type };
        }
        if eq_str(scheme, "tauri") && has_host(url, "localhost") && starts_with(path, "/account/") {
            return NavigationAction::Block;
        }
    }
    if is_captcha_page(url) {
        return NavigationAction::EnterCaptcha;
    }
    if on_captcha && eq_str(scheme, "about") {
        return NavigationAction::Allow;
    }
    if let Some(target) = unsupported_app_redirect_url(url) {
        return NavigationAction::Redirect { target };
    }
    if is_challenge_frame_url(url) {
        return NavigationAction::Allow;
    }
    if starts_with(path, "/api/") {
        return NavigationAction::Block;
    }
    if eq_str(scheme, "tauri") || eq_str(scheme, "about") || is_local_app_host(url.host_str()) {
        NavigationAction::Allow
    } else {
        NavigationAction::Block
    }
}

/// Decides about a navigation.
pub fn decide_navigation(url: &Url, on_captcha: bool) -> (r: NavigationAction)
    ensures
        r@ == navigation_rule(
            url@,
            on_captcha,
            completion_token(url@, form_pairs(url@.query_text())),
        ),
        is_decodable(url@.query_text()) ==> r@ == navigation_rule(
            url@,
            on_captcha,
            completion_token(url@, decoded_pairs(url@.query_text())),
        ),
{
    let completion = if on_captcha {
        captcha_completion_token(url)
    } else {
        None
    };
    navigation_for(url, on_captcha, completion)
}

/// A URL of the shell's own origin.
pub open spec fn local_target(target: Seq<char>) -> bool {
    let n = "tauri://localhost"@.len() as int;
    has_prefix(target, "tauri://localhost"@) && (target.len() > n ==> target[n] == '/' || target[n]
        == '?')
}

/// Every page that a navigation is redirected to is one that the shell serves itself.
pub proof fn law_redirects_stay_local(
    url: UrlView,
    on_captcha: bool,
    completion: Option<(Seq<char>, Seq<char>)>,
)
    requires
        url.well_formed(),
    ensures
        match navigation_rule(url, on_captcha, completion) {
            NavigationView::Redirect { target } => local_target(target),
            NavigationView::FinishLogin { target } => local_target(target),
            _ => true,
        },
{
    reveal_strlit("tauri://localhost/");
    reveal_strlit("tauri://localhost");
    reveal_strlit("tauri://localhost/account");
    reveal_strlit("tauri://localhost/account/?");
    reveal_strlit("/");
    reveal_strlit("/u/");
    reveal_strlit("?");
}

/// The web view reaches only the shell's own pages, internal pages, and those of a CAPTCHA.
pub proof fn law_allowed_origins(
    url: UrlView,
    on_captcha: bool,
    completion: Option<(Seq<char>, Seq<char>)>,
)
    requires
        navigation_rule(url, on_captcha, completion).allows(),
    ensures
        url.scheme == "tauri"@ || url.scheme == "about"@ || local_app_host(url.host)
            || hcaptcha_host(url.host) || captcha_page(url),
        ({
            ||| url.scheme == "tauri"@
            ||| url.scheme == "about"@
            ||| url.host == Some("localhost"@)
            ||| url.host == Some("tauri.localhost"@)
            ||| url.host == Some("hcaptcha.com"@)
            ||| url.host is Some && has_suffix(url.host->0, ".hcaptcha.com"@)
            ||| url.host == Some("mail.proton.me"@) && has_prefix(url.path, "/captcha/"@)
            ||| url.host == Some("mail.proton.me"@) && has_prefix(url.path, "/api/core/v4/captcha"@)
            ||| url.host == Some("verify.proton.me"@)
            ||| url.host == Some("verify-api.proton.me"@)
        }),
{
}

/// API endpoints are never opened as pages, but for the frames of the challenge and the pages of
/// a CAPTCHA.
pub proof fn law_api_pages_are_blocked(
    url: UrlView,
    on_captcha: bool,
    completion: Option<(Seq<char>, Seq<char>)>,
)
    requires
        has_prefix(url.path, "/api/"@),
        !challenge_frame(url),
        !captcha_page(url),
        !hcaptcha_host(url.host),
        !(on_captcha && url.scheme == "about"@),
    ensures
        !navigation_rule(url, on_captcha, completion).allows(),
{
}

/// The frames of the challenge are always let through.
pub proof fn law_challenge_frames_are_allowed(
    url: UrlView,
    on_captcha: bool,
    pairs: Seq<(Seq<char>, Seq<char>)>,
)
    requires
        challenge_frame(url),
    ensures
        navigation_rule(url, on_captcha, completion_token(url, pairs)) == NavigationView::Allow,
{
    reveal_strlit("tauri");
    reveal_strlit("blob");
    reveal_strlit("/login");
    reveal_strlit("/account");
    reveal_strlit("/account/");
    reveal_strlit("/account/u/");
    reveal_strlit("/u/");
    reveal_strlit("/api/challenge/");
    reveal_strlit("localhost");
    reveal_strlit("tauri.localhost");
    reveal_strlit("account.proton.me");
    reveal_strlit("account.localhost");
    reveal_strlit("drive.proton.me");
    reveal_strlit("hcaptcha.com");
    reveal_strlit(".hcaptcha.com");
    reveal_strlit("mail.proton.me");
    reveal_strlit("verify.proton.me");
    reveal_strlit("verify-api.proton.me");
    reveal_strlit("about");
    reveal_strlit("calendar.proton.me");
    reveal_strlit("contacts.proton.me");
    reveal_strlit("docs.proton.me");
    reveal_strlit("pass.proton.me");
    reveal_strlit("wallet.proton.me");
    reveal_strlit("vpn.proton.me");
    let path = url.path;
    let host = url.host->0;
    lemma_prefix_char(path, "/api/challenge/"@, 1);
    lemma_prefix_char(path, "/api/challenge/"@, 2);
    assert(path[1] == 'a' && path[2] == 'p');
    if has_prefix(path, "/login"@) {
        lemma_prefix_char(path, "/login"@, 1);
    }
    if has_prefix(path, "/account"@) {
        lemma_prefix_char(path, "/account"@, 2);
    }
    if has_prefix(path, "/account/"@) {
        lemma_prefix_char(path, "/account/"@, 2);
    }
    if has_prefix(path, "/account/u/"@) {
        lemma_prefix_char(path, "/account/u/"@, 2);
    }
    if has_prefix(path, "/u/"@) {
        lemma_prefix_char(path, "/u/"@, 1);
    }
    assert("tauri"@[0] == 't' && "blob"@[0] == 'b');
    assert(host[0] == 'l' || host[0] == 't');
    assert("account.proton.me"@[0] == 'a');
    assert("account.localhost"@[0] == 'a');
    assert("drive.proton.me"@[0] == 'd');
    assert("hcaptcha.com"@[0] == 'h');
    assert("mail.proton.me"@[0] == 'm');
    assert("verify.proton.me"@[0] == 'v');
    assert("verify-api.proton.me"@[0] == 'v');
    assert("calendar.proton.me"@[0] == 'c');
    assert("contacts.proton.me"@[0] == 'c');
    assert("docs.proton.me"@[0] == 'd');
    assert("pass.proton.me"@[0] == 'p');
    assert("wallet.proton.me"@[0] == 'w');
    assert("vpn.proton.me"@[0] == 'v');
    if has_suffix(host, ".hcaptcha.com"@) {
        assert(host.subrange(host.len() - 13, host.len() as int)[0] == '.');
        assert(host[host.len() - 13] == '.');
    }
    assert(!local_account_page(url));
}

/// A verification token is taken over only inside a CAPTCHA, only from a local page of the
/// account app, and only where both the token and its type are given.
pub proof fn law_captcha_completion_is_explicit(
    url: UrlView,
    on_captcha: bool,
    pairs: Seq<(Seq<char>, Seq<char>)>,
)
    ensures
        match navigation_rule(url, on_captcha, completion_token(url, pairs)) {
            NavigationView::AcceptCaptcha { token, token_type } => on_captcha
                && local_account_page(url) && token.len() > 0 && token_type.len() > 0,
            _ => true,
        },
{
}

/// Every sign-in is told to return to Drive, and nothing about an expired session comes along.
pub proof fn law_sign_in_returns_to_drive(query: Option<Seq<char>>)
    ensures
        has_prefix(login_target(query), "tauri://localhost/account/?product=drive"@),
        query is None ==> login_target(query) == "tauri://localhost/account/?product=drive"@,
        forall|i: int|
            0 <= i < kept_login_parts(query).len() ==> kept_login_part(
                #[trigger] kept_login_parts(query)[i],
            ),
{
    reveal_strlit("tauri://localhost/account/?product=drive");
    reveal_strlit("tauri://localhost/account/?");
    reveal_strlit("product=drive");
    let parts = seq!["product=drive"@] + kept_login_parts(query);
    lemma_join_first(parts, "&"@);
    let rest = join(parts, "&"@);
    let whole = "tauri://localhost/account/?product=drive"@;
    assert(whole =~= "tauri://localhost/account/?"@ + "product=drive"@);
    assert(rest.subrange(0, "product=drive"@.len() as int) =~= "product=drive"@);
    assert(login_target(query).subrange(0, whole.len() as int)
        =~= "tauri://localhost/account/?"@ + rest.subrange(0, "product=drive"@.len() as int));
    if query is None {
        assert(parts =~= seq!["product=drive"@]);
        assert(login_target(query) =~= "tauri://localhost/account/?product=drive"@);
    }
    if query is Some {
        let keep = |part: Seq<char>| kept_login_part(part);
        let all = split(query->0, '&');
        assert forall|i: int| 0 <= i < kept_login_parts(query).len() implies kept_login_part(
            #[trigger] kept_login_parts(query)[i],
        ) by {
            all.lemma_filter_pred(keep, i);
        }
    }
}

/// What tells the hosts apart.
proof fn lemma_hosts()
    ensures
        "account.proton.me"@.len() == 17 && "account.proton.me"@[0] == 'a'
            && "account.proton.me"@[1] == 'c' && "account.proton.me"@.last() == 'e',
        "account.localhost"@.len() == 17 && "account.localhost"@[0] == 'a'
            && "account.localhost"@[1] == 'c' && "account.localhost"@.last() == 't',
        "drive.proton.me"@.len() == 15 && "drive.proton.me"@[0] == 'd'
            && "drive.proton.me"@[1] == 'r' && "drive.proton.me"@.last() == 'e',
        "localhost"@.len() == 9 && "localhost"@[0] == 'l'
            && "localhost"@[1] == 'o' && "localhost"@.last() == 't',
        "tauri.localhost"@.len() == 15 && "tauri.localhost"@[0] == 't'
            && "tauri.localhost"@[1] == 'a' && "tauri.localhost"@.last() == 't',
        "mail.proton.me"@.len() == 14 && "mail.proton.me"@[0] == 'm'
            && "mail.proton.me"@[1] == 'a' && "mail.proton.me"@.last() == 'e',
        "verify.proton.me"@.len() == 16 && "verify.proton.me"@[0] == 'v'
            && "verify.proton.me"@[1] == 'e' && "verify.proton.me"@.last() == 'e',
        "verify-api.proton.me"@.len() == 20 && "verify-api.proton.me"@[0] == 'v'
            && "verify-api.proton.me"@[1] == 'e' && "verify-api.proton.me"@.last() == 'e',
        "calendar.proton.me"@.len() == 18 && "calendar.proton.me"@[0] == 'c'
            && "calendar.proton.me"@[1] == 'a' && "calendar.proton.me"@.last() == 'e',
        "contacts.proton.me"@.len() == 18 && "contacts.proton.me"@[0] == 'c'
            && "contacts.proton.me"@[1] == 'o' && "contacts.proton.me"@.last() == 'e',
        "docs.proton.me"@.len() == 14 && "docs.proton.me"@[0] == 'd'
            && "docs.proton.me"@[1] == 'o' && "docs.proton.me"@.last() == 'e',
        "pass.proton.me"@.len() == 14 && "pass.proton.me"@[0] == 'p'
            && "pass.proton.me"@[1] == 'a' && "pass.proton.me"@.last() == 'e',
        "wallet.proton.me"@.len() == 16 && "wallet.proton.me"@[0] == 'w'
            && "wallet.proton.me"@[1] == 'a' && "wallet.proton.me"@.last() == 'e',
        "vpn.proton.me"@.len() == 13 && "vpn.proton.me"@[0] == 'v'
            && "vpn.proton.me"@[1] == 'p' && "vpn.proton.me"@.last() == 'e',
        "hcaptcha.com"@.len() == 12 && "hcaptcha.com"@[0] == 'h'
            && "hcaptcha.com"@[1] == 'c' && "hcaptcha.com"@.last() == 'm',
        "account.proton.me"@[8] == 'p' && "account.localhost"@[8] == 'l',
{
    reveal_strlit("account.proton.me");
    reveal_strlit("account.localhost");
    reveal_strlit("drive.proton.me");
    reveal_strlit("localhost");
    reveal_strlit("tauri.localhost");
    reveal_strlit("mail.proton.me");
    reveal_strlit("verify.proton.me");
    reveal_strlit("verify-api.proton.me");
    reveal_strlit("calendar.proton.me");
    reveal_strlit("contacts.proton.me");
    reveal_strlit("docs.proton.me");
    reveal_strlit("pass.proton.me");
    reveal_strlit("wallet.proton.me");
    reveal_strlit("vpn.proton.me");
    reveal_strlit("hcaptcha.com");
}

/// What tells the schemes apart.
proof fn lemma_schemes()
    ensures
        "blob"@.len() == 4,
        "tauri"@.len() == 5 && "tauri"@[0] == 't',
        "about"@.len() == 5 && "about"@[0] == 'a',
        "https"@.len() == 5 && "https"@[0] == 'h',
        "http"@.len() == 4 && "http"@[0] == 'h' && "blob"@[0] == 'b',
{
    reveal_strlit("blob");
    reveal_strlit("tauri");
    reveal_strlit("about");
    reveal_strlit("https");
    reveal_strlit("http");
}

/// What tells the beginnings of paths apart.
proof fn lemma_paths()
    ensures
        "/login"@.len() == 6 && "/login"@[1] == 'l',
        "/api/"@.len() == 5 && "/api/"@[1] == 'a' && "/api/"@[2] == 'p',
        "/api/core/v4/captcha"@.len() == 20 && "/api/core/v4/captcha"@[1] == 'a',
        "/api/challenge/"@.len() == 15 && "/api/challenge/"@[1] == 'a' && "/api/challenge/"@[2]
            == 'p',
        "/captcha/"@.len() == 9 && "/captcha/"@[1] == 'c',
        "/account/"@.len() == 9 && "/account/"@[1] == 'a' && "/account/"@[2] == 'c',
        "/account/u/"@.len() == 11 && "/account/u/"@[1] == 'a' && "/account/u/"@[2] == 'c',
        "/u/"@.len() == 3 && "/u/"@[1] == 'u',
{
    reveal_strlit("/login");
    reveal_strlit("/api/");
    reveal_strlit("/api/core/v4/captcha");
    reveal_strlit("/api/challenge/");
    reveal_strlit("/captcha/");
    reveal_strlit("/account/");
    reveal_strlit("/account/u/");
    reveal_strlit("/u/");
}

/// A path does not begin in two ways.
proof fn lemma_other_beginning(path: Seq<char>, p: Seq<char>, q: Seq<char>, i: int)
    requires
        has_prefix(path, p),
        0 <= i < p.len() && i < q.len(),
        p[i] != q[i],
    ensures
        !has_prefix(path, q),
{
    lemma_prefix_char(path, p, i);
    if has_prefix(path, q) {
        lemma_prefix_char(path, q, i);
    }
}

/// A host whose last letter is another one does not belong to the widget.
proof fn lemma_no_widget(host: Seq<char>)
    requires
        host.len() > 0 && host.last() != 'm',
    ensures
        !hcaptcha_host(Some(host)),
{
    lemma_hosts();
    reveal_strlit(".hcaptcha.com");
    if has_suffix(host, ".hcaptcha.com"@) {
        assert(host.subrange(host.len() - 13, host.len() as int)[12] == 'm');
    }
}

/// The pages of a CAPTCHA are always entered, inside a CAPTCHA as outside of one: those on the
/// hosts for verification, and those below the two CAPTCHA paths of the mail host.
pub proof fn law_captcha_pages_are_entered(
    url: UrlView,
    on_captcha: bool,
    pairs: Seq<(Seq<char>, Seq<char>)>,
    rest: Seq<char>,
)
    requires
        url.scheme != "blob"@,
        !has_prefix(url.path, "/login"@),
        ({
            ||| url.host == Some("verify.proton.me"@)
            ||| url.host == Some("verify-api.proton.me"@)
            ||| url.host == Some("mail.proton.me"@) && url.path == "/api/core/v4/captcha"@ + rest
            ||| url.host == Some("mail.proton.me"@) && url.path == "/captcha/"@ + rest
        }),
    ensures
        captcha_page(url),
        navigation_rule(url, on_captcha, completion_token(url, pairs))
            == NavigationView::EnterCaptcha,
{
    lemma_hosts();
    lemma_no_widget(url.host->0);
    law_prefix_is_what_stands_first(url.path, "/api/core/v4/captcha"@, rest);
    law_prefix_is_what_stands_first(url.path, "/captcha/"@, rest);
}

/// A page that is no page of a CAPTCHA is never entered as one.
pub proof fn law_only_captcha_pages_are_entered(
    url: UrlView,
    on_captcha: bool,
    completion: Option<(Seq<char>, Seq<char>)>,
)
    requires
        navigation_rule(url, on_captcha, completion) == NavigationView::EnterCaptcha,
    ensures
        url.host == Some("verify.proton.me"@) || url.host == Some("verify-api.proton.me"@)
            || url.host == Some("mail.proton.me"@) && (has_prefix(url.path, "/captcha/"@)
            || has_prefix(url.path, "/api/core/v4/captcha"@)),
{
}

/// The widget of the CAPTCHA is always let through, from its own host and from every host below it.
pub proof fn law_widget_is_allowed(
    url: UrlView,
    on_captcha: bool,
    completion: Option<(Seq<char>, Seq<char>)>,
    sub: Seq<char>,
)
    requires
        url.scheme != "blob"@,
        !has_prefix(url.path, "/login"@),
        url.host == Some("hcaptcha.com"@) || url.host == Some(sub + ".hcaptcha.com"@),
    ensures
        navigation_rule(url, on_captcha, completion) == NavigationView::Allow,
{
    lemma_hosts();
    reveal_strlit(".hcaptcha.com");
    law_suffix_is_what_stands_last(url.host->0, ".hcaptcha.com"@, sub);
    assert(url.host->0.last() == 'm');
}

/// A blob is saved, and not opened.
pub proof fn law_blobs_are_saved(
    url: UrlView,
    on_captcha: bool,
    completion: Option<(Seq<char>, Seq<char>)>,
)
    requires
        url.scheme == "blob"@,
    ensures
        navigation_rule(url, on_captcha, completion) == (NavigationView::SaveBlob {
            blob_url: url.text,
        }),
{
}

/// Every sign-in page leads to the local account app, whichever host it is on.
pub proof fn law_sign_in_pages_lead_to_the_account_app(
    url: UrlView,
    on_captcha: bool,
    completion: Option<(Seq<char>, Seq<char>)>,
    rest: Seq<char>,
)
    requires
        url.scheme != "blob"@,
        url.path == "/login"@ + rest,
    ensures
        navigation_rule(url, on_captcha, completion) == (NavigationView::Redirect {
            target: login_target(url.query),
        }),
{
    law_prefix_is_what_stands_first(url.path, "/login"@, rest);
}

/// The pages of the account app and of Drive lead to their local counterparts, with the path and
/// the query unchanged.
pub proof fn law_proton_pages_become_local(
    url: UrlView,
    on_captcha: bool,
    completion: Option<(Seq<char>, Seq<char>)>,
    query: Seq<char>,
)
    requires
        url.scheme != "blob"@,
        !has_prefix(url.path, "/login"@),
    ensures
        url.host == Some("account.proton.me"@) && url.query is None ==> navigation_rule(
            url,
            on_captcha,
            completion,
        ) == (NavigationView::Redirect { target: "tauri://localhost/account"@ + url.path }),
        url.host == Some("account.proton.me"@) && url.query == Some(query) ==> navigation_rule(
            url,
            on_captcha,
            completion,
        ) == (NavigationView::Redirect {
            target: "tauri://localhost/account"@ + url.path + seq!['?'] + query,
        }),
        url.host == Some("drive.proton.me"@) && url.query is None ==> navigation_rule(
            url,
            on_captcha,
            completion,
        ) == (NavigationView::Redirect { target: "tauri://localhost"@ + url.path }),
        url.host == Some("drive.proton.me"@) && url.query == Some(query) ==> navigation_rule(
            url,
            on_captcha,
            completion,
        ) == (NavigationView::Redirect {
            target: "tauri://localhost"@ + url.path + seq!['?'] + query,
        }),
{
    lemma_hosts();
    law_query_follows_a_question_mark(query);
    let account = "tauri://localhost/account"@ + url.path;
    let drive = "tauri://localhost"@ + url.path;
    assert(account + query_suffix(None) =~= account);
    assert(drive + query_suffix(None) =~= drive);
    assert(account + (seq!['?'] + query) =~= account + seq!['?'] + query);
    assert(drive + (seq!['?'] + query) =~= drive + seq!['?'] + query);
}

/// When the account app has finished a sign-in, Drive is opened, for every user and every page.
pub proof fn law_finished_sign_ins_open_drive(
    url: UrlView,
    on_captcha: bool,
    completion: Option<(Seq<char>, Seq<char>)>,
    user: Seq<char>,
    rest: Seq<char>,
)
    requires
        url.scheme != "blob"@,
        ({
            ||| (url.host == Some("localhost"@) || url.host == Some("tauri.localhost"@) || url.host
                == Some("account.localhost"@)) && url.path == "/account/u/"@ + user + "/drive"@
                + rest
            ||| url.host == Some("account.localhost"@) && url.path == "/u/"@ + user + "/drive"@
                + rest
        }),
    ensures
        navigation_rule(url, on_captcha, completion) == (NavigationView::FinishLogin {
            target: "tauri://localhost/"@,
        }),
{
    lemma_hosts();
    lemma_paths();
    let a = "/account/u/"@;
    let u = "/u/"@;
    let drive = "/drive"@;
    law_infix_is_what_stands_between(url.path, drive, a + user, rest);
    law_infix_is_what_stands_between(url.path, drive, u + user, rest);
    law_prefix_is_what_stands_first(url.path, a, user + drive + rest);
    law_prefix_is_what_stands_first(url.path, u, user + drive + rest);
    assert(a + user + drive + rest =~= a + (user + drive + rest));
    assert(u + user + drive + rest =~= u + (user + drive + rest));
    if has_prefix(url.path, a) {
        lemma_other_beginning(url.path, a, "/login"@, 1);
    } else {
        lemma_other_beginning(url.path, u, "/login"@, 1);
    }
    law_finished_sign_ins(url);
}

/// Inside a CAPTCHA a local page of the account app that hands over a token ends the CAPTCHA with
/// that token; one on the shell's main host that does not is held back.
pub proof fn law_account_pages_inside_a_captcha(
    url: UrlView,
    token: Seq<char>,
    kind: Seq<char>,
    rest: Seq<char>,
)
    requires
        url.scheme == "tauri"@,
        url.path == "/account/"@ + rest,
        !has_infix(url.path, "/drive"@),
    ensures
        url.host == Some("localhost"@) || url.host == Some("tauri.localhost"@) ==> navigation_rule(
            url,
            true,
            Some((token, kind)),
        ) == (NavigationView::AcceptCaptcha { token, token_type: kind }),
        url.host == Some("localhost"@) ==> navigation_rule(url, true, None)
            == NavigationView::Block,
        url.host == Some("tauri.localhost"@) ==> navigation_rule(url, true, None)
            == NavigationView::Allow,
        url.host == Some("localhost"@) || url.host == Some("tauri.localhost"@) ==> navigation_rule(
            url,
            false,
            Some((token, kind)),
        ) == NavigationView::Allow,
{
    lemma_schemes();
    lemma_hosts();
    lemma_paths();
    law_prefix_is_what_stands_first(url.path, "/account/"@, rest);
    lemma_other_beginning(url.path, "/account/"@, "/login"@, 1);
    lemma_other_beginning(url.path, "/account/"@, "/api/"@, 2);
    lemma_other_beginning(url.path, "/account/"@, "/api/challenge/"@, 2);
    law_finished_sign_ins(url);
    if url.host is Some && url.host->0.len() > 0 && url.host->0.last() != 'm' {
        lemma_no_widget(url.host->0);
    }
}

/// The URL with which the page of a CAPTCHA returns ends the CAPTCHA, with the token and the type
/// that the page put into it.
pub proof fn law_returning_ends_the_captcha(token: Seq<char>, kind: Seq<char>)
    requires
        token.len() > 0,
        kind.len() > 0,
    ensures
        ({
            let url = account_return(completion_url(token, kind));
            navigation_rule(url, true, completion_token(url, decoded_pairs(url.query_text())))
                == (NavigationView::AcceptCaptcha { token, token_type: kind })
        }),
{
    let url = account_return(completion_url(token, kind));
    law_any_token_is_handed_over(token, kind);
    reveal_strlit("/account/");
    reveal_strlit("/drive");
    if has_infix(url.path, "/drive"@) {
        let i = choose|i: int| occurs_at(url.path, "/drive"@, i);
        assert(url.path.subrange(i, i + 6)[1] == 'd');
        assert(url.path[i + 1] == 'd');
    }
    assert(url.path =~= "/account/"@ + Seq::empty());
    law_account_pages_inside_a_captcha(url, token, kind, Seq::empty());
}

/// Internal pages are let through, inside a CAPTCHA as outside of one.
pub proof fn law_internal_pages_are_allowed(
    url: UrlView,
    on_captcha: bool,
    pairs: Seq<(Seq<char>, Seq<char>)>,
)
    requires
        url.scheme == "about"@,
        url.host is None,
        !has_prefix(url.path, "/login"@),
        !has_prefix(url.path, "/api/"@),
    ensures
        navigation_rule(url, on_captcha, completion_token(url, pairs)) == NavigationView::Allow,
{
    lemma_schemes();
}

/// The pages of the apps that this shell does not carry lead to Drive, inside a CAPTCHA as outside
/// of one: to the root of the user that their path names, or else to the plain root.
pub proof fn law_other_apps_lead_to_drive(
    url: UrlView,
    on_captcha: bool,
    pairs: Seq<(Seq<char>, Seq<char>)>,
    app: Seq<char>,
    user: Seq<char>,
    rest: Seq<char>,
)
    requires
        url.scheme != "blob"@,
        url.scheme != "about"@,
        ({
            ||| app == "calendar"@
            ||| app == "contacts"@
            ||| app == "docs"@
            ||| app == "mail"@
            ||| app == "pass"@
            ||| app == "wallet"@
            ||| app == "vpn"@
        }),
        url.host == Some(app + ".proton.me"@),
        user.len() > 0 && !user.contains('/'),
    ensures
        url.path == "/u/"@ + user + "/"@ + rest ==> navigation_rule(
            url,
            on_captcha,
            completion_token(url, pairs),
        ) == (NavigationView::Redirect { target: "tauri://localhost/u/"@ + user + "/"@ }),
        !has_prefix(url.path, "/u/"@) && !has_prefix(url.path, "/api/"@) && !has_prefix(
            url.path,
            "/captcha/"@,
        ) && !has_prefix(url.path, "/login"@) ==> navigation_rule(
            url,
            on_captcha,
            completion_token(url, pairs),
        ) == (NavigationView::Redirect { target: "tauri://localhost/"@ }),
{
    lemma_schemes();
    lemma_hosts();
    lemma_paths();
    law_apps_that_are_not_carried(app, url.host->0);
    lemma_no_widget(url.host->0);
    law_pages_of_other_apps_lead_to_drive(url, app, user, rest);
    law_finished_sign_ins(url);
    if has_prefix(url.path, "/api/core/v4/captcha"@) {
        reveal_strlit("/api/core/v4/captcha");
        reveal_strlit("/api/");
        assert(url.path.subrange(0, 5) =~= url.path.subrange(0, 20).subrange(0, 5));
        assert("/api/core/v4/captcha"@.subrange(0, 5) =~= "/api/"@);
    }
    if url.path == "/u/"@ + user + "/"@ + rest {
        assert("/u/"@ + user + "/"@ + rest =~= "/u/"@ + (user + "/"@ + rest));
        law_prefix_is_what_stands_first(url.path, "/u/"@, user + "/"@ + rest);
        lemma_other_beginning(url.path, "/u/"@, "/login"@, 1);
        lemma_other_beginning(url.path, "/u/"@, "/captcha/"@, 1);
        lemma_other_beginning(url.path, "/u/"@, "/api/"@, 1);
    }
}

/// The pages that the shell serves itself are let through, but for sign-ins, finished sign-ins, API
/// endpoints and, inside a CAPTCHA, the account app.
pub proof fn law_local_pages_are_allowed(
    url: UrlView,
    on_captcha: bool,
    pairs: Seq<(Seq<char>, Seq<char>)>,
)
    requires
        url.scheme != "blob"@,
        url.host == Some("localhost"@) || url.host == Some("tauri.localhost"@),
        !has_prefix(url.path, "/login"@),
        !has_prefix(url.path, "/api/"@),
        !(has_prefix(url.path, "/account/u/"@) && has_infix(url.path, "/drive"@)),
        !(on_captcha && has_prefix(url.path, "/account/"@)),
    ensures
        navigation_rule(url, on_captcha, completion_token(url, pairs)) == NavigationView::Allow,
{
    lemma_hosts();
    lemma_paths();
    lemma_no_widget(url.host->0);
    law_finished_sign_ins(url);
    reveal_strlit("/api/");
    reveal_strlit("/api/challenge/");
    if has_prefix(url.path, "/api/challenge/"@) {
        assert(url.path.subrange(0, 5) =~= url.path.subrange(0, 15).subrange(0, 5));
        assert("/api/challenge/"@.subrange(0, 5) =~= "/api/"@);
    }
}

/// The API endpoints that the shell serves itself are not opened as pages, but for the frames of
/// the challenge.
pub proof fn law_local_endpoints_are_blocked(
    url: UrlView,
    on_captcha: bool,
    pairs: Seq<(Seq<char>, Seq<char>)>,
    rest: Seq<char>,
)
    requires
        url.scheme == "tauri"@,
        url.host == Some("localhost"@) || url.host == Some("tauri.localhost"@),
        url.path == "/api/"@ + rest,
    ensures
        navigation_rule(url, on_captcha, completion_token(url, pairs)) == if has_prefix(
            url.path,
            "/api/challenge/"@,
        ) {
            NavigationView::Allow
        } else {
            NavigationView::Block
        },
{
    lemma_schemes();
    lemma_hosts();
    lemma_paths();
    lemma_no_widget(url.host->0);
    law_prefix_is_what_stands_first(url.path, "/api/"@, rest);
    lemma_other_beginning(url.path, "/api/"@, "/login"@, 1);
    lemma_other_beginning(url.path, "/api/"@, "/account/"@, 2);
    lemma_other_beginning(url.path, "/api/"@, "/account/u/"@, 2);
    lemma_other_beginning(url.path, "/api/"@, "/u/"@, 1);
    law_finished_sign_ins(url);
}

/// The pages of all other hosts are blocked, and so are those of foreign schemes without a host.
pub proof fn law_foreign_pages_are_blocked(
    url: UrlView,
    on_captcha: bool,
    pairs: Seq<(Seq<char>, Seq<char>)>,
)
    requires
        url.scheme != "blob"@,
        url.scheme != "tauri"@,
        url.scheme != "about"@,
        url.host is Some ==> !has_suffix(url.host->0, ".proton.me"@) && !has_suffix(
            url.host->0,
            ".hcaptcha.com"@,
        ),
        url.host != Some("hcaptcha.com"@),
        url.host != Some("localhost"@),
        url.host != Some("tauri.localhost"@),
        url.host != Some("account.localhost"@),
        !has_prefix(url.path, "/login"@),
    ensures
        navigation_rule(url, on_captcha, completion_token(url, pairs)) == NavigationView::Block,
{
    let user = seq!['u'];
    assert(!user.contains('/'));
    law_pages_of_other_apps_lead_to_drive(url, "mail"@, user, Seq::empty());
    lemma_proton_hosts();
    law_finished_sign_ins(url);
}

/// The web view goes on exactly where a navigation is let through, into a CAPTCHA or not.
pub proof fn law_what_lets_a_navigation_go_on(text: Seq<char>, token: Seq<char>)
    ensures
        NavigationView::Allow.allows(),
        NavigationView::EnterCaptcha.allows(),
        !NavigationView::Block.allows(),
        !(NavigationView::SaveBlob { blob_url: text }).allows(),
        !(NavigationView::Redirect { target: text }).allows(),
        !(NavigationView::FinishLogin { target: text }).allows(),
        !(NavigationView::AcceptCaptcha { token, token_type: text }).allows(),
{
}

/// The pieces of a sign-in query are judged one by one: a piece is left out exactly if it gives the
/// reason or the type of an expired session.
pub proof fn law_login_pieces_are_judged_one_by_one(a: Seq<char>, b: Seq<char>)
    ensures
        kept_login_parts(Some(a + seq!['&'] + b)) == kept_login_parts(Some(a)) + kept_login_parts(
            Some(b),
        ),
        !a.contains('&') ==> kept_login_parts(Some("reason="@ + a)) == Seq::<Seq<char>>::empty(),
        !a.contains('&') ==> kept_login_parts(Some("type="@ + a)) == Seq::<Seq<char>>::empty(),
        !a.contains('&') && !has_prefix(a, "reason="@) && !has_prefix(a, "type="@)
            ==> kept_login_parts(Some(a)) == seq![a],
        kept_login_parts(None) == Seq::<Seq<char>>::empty(),
{
    let keep = |part: Seq<char>| kept_login_part(part);
    law_pieces_stand_between_separators(a, b, '&');
    Seq::filter_distributes_over_add(split(a, '&'), split(b, '&'), keep);
    reveal(Seq::filter);
    assert(Seq::<Seq<char>>::empty().filter(keep) =~= Seq::empty());
    if !a.contains('&') {
        reveal_strlit("reason=");
        reveal_strlit("type=");
        let x = "reason="@ + a;
        let y = "type="@ + a;
        assert(!x.contains('&')) by {
            if x.contains('&') {
                let i = choose|i: int| 0 <= i < x.len() && x[i] == '&';
                if i >= 7 {
                    assert(a[i - 7] == '&');
                }
            }
        }
        assert(!y.contains('&')) by {
            if y.contains('&') {
                let i = choose|i: int| 0 <= i < y.len() && y[i] == '&';
                if i >= 5 {
                    assert(a[i - 5] == '&');
                }
            }
        }
        lemma_split_single(a, '&');
        lemma_split_single(x, '&');
        lemma_split_single(y, '&');
        law_prefix_is_what_stands_first(x, "reason="@, a);
        law_prefix_is_what_stands_first(y, "type="@, a);
        assert(seq![a].drop_last() =~= Seq::empty());
        assert(seq![x].drop_last() =~= Seq::empty());
        assert(seq![y].drop_last() =~= Seq::empty());
        assert(kept_login_parts(Some(x)) =~= Seq::empty());
        assert(kept_login_parts(Some(y)) =~= Seq::empty());
        if !has_prefix(a, "reason="@) && !has_prefix(a, "type="@) {
            assert(kept_login_parts(Some(a)) =~= seq![a]);
        }
    }
}

/// A sign-in query of which no piece speaks of an expired session comes along whole, behind the
/// return to Drive; one that holds nothing else leaves only that.
pub proof fn law_sign_in_query_comes_along(query: Seq<char>)
    ensures
        (forall|i: int|
            0 <= i < split(query, '&').len() ==> !has_prefix(
                #[trigger] split(query, '&')[i],
                "reason="@,
            ) && !has_prefix(split(query, '&')[i], "type="@)) ==> login_target(Some(query))
            == "tauri://localhost/account/?product=drive&"@ + query,
        kept_login_parts(Some(query)).len() == 0 ==> login_target(Some(query))
            == "tauri://localhost/account/?product=drive"@,
        kept_login_parts(Some(query)).len() > 0 ==> login_target(Some(query))
            == "tauri://localhost/account/?product=drive&"@ + join(
            kept_login_parts(Some(query)),
            seq!['&'],
        ),
{
    reveal_strlit("tauri://localhost/account/?product=drive&");
    reveal_strlit("tauri://localhost/account/?product=drive");
    reveal_strlit("tauri://localhost/account/?");
    reveal_strlit("product=drive");
    reveal_strlit("&");
    assert("&"@ =~= seq!['&']);
    let base = "tauri://localhost/account/?"@;
    let drive = "product=drive"@;
    let kept = kept_login_parts(Some(query));
    let keep = |part: Seq<char>| kept_login_part(part);
    assert("tauri://localhost/account/?product=drive"@ =~= base + drive);
    assert("tauri://localhost/account/?product=drive&"@ =~= base + drive + "&"@);
    if kept.len() == 0 {
        assert(seq![drive] + kept =~= seq![drive]);
    } else {
        lemma_join_concat(seq![drive], kept, "&"@);
        assert(join(seq![drive], "&"@) == drive);
        assert(base + (drive + "&"@ + join(kept, "&"@)) =~= base + drive + "&"@ + join(kept, "&"@));
    }
    if forall|i: int|
        0 <= i < split(query, '&').len() ==> !has_prefix(
            #[trigger] split(query, '&')[i],
            "reason="@,
        ) && !has_prefix(split(query, '&')[i], "type="@) {
        let all = split(query, '&');
        assert forall|i: int| 0 <= i < all.len() implies keep(#[trigger] all[i]) by {}
        lemma_filter_all(all, keep);
        lemma_split_nonempty(query, '&');
        lemma_split_join(query, '&');
    }
}

/// Pages of the shell's own scheme, and internal pages, are let through under any other host too,
/// but for sign-ins and API endpoints.
pub proof fn law_own_schemes_are_allowed_under_any_host(
    url: UrlView,
    on_captcha: bool,
    pairs: Seq<(Seq<char>, Seq<char>)>,
)
    requires
        url.scheme == "tauri"@ || url.scheme == "about"@,
        url.host is Some ==> {
            &&& !has_suffix(url.host->0, ".proton.me"@)
            &&& url.host != Some("localhost"@)
            &&& url.host != Some("tauri.localhost"@)
            &&& url.host != Some("account.localhost"@)
        },
        !has_prefix(url.path, "/login"@),
        !has_prefix(url.path, "/api/"@),
    ensures
        navigation_rule(url, on_captcha, completion_token(url, pairs)) == NavigationView::Allow,
{
    lemma_schemes();
    let user = seq!['u'];
    assert(!user.contains('/'));
    law_pages_of_other_apps_lead_to_drive(url, "mail"@, user, Seq::empty());
    lemma_proton_hosts();
    law_finished_sign_ins(url);
}

/// The hosts in the domain of Proton.
proof fn lemma_proton_hosts()
    ensures
        has_suffix("account.proton.me"@, ".proton.me"@),
        has_suffix("drive.proton.me"@, ".proton.me"@),
        has_suffix("mail.proton.me"@, ".proton.me"@),
        has_suffix("verify.proton.me"@, ".proton.me"@),
        has_suffix("verify-api.proton.me"@, ".proton.me"@),
{
    reveal_strlit(".proton.me");
    reveal_strlit("account.proton.me");
    reveal_strlit("drive.proton.me");
    reveal_strlit("mail.proton.me");
    reveal_strlit("verify.proton.me");
    reveal_strlit("verify-api.proton.me");
}

/// The API endpoints of the apps that this shell does not carry are blocked, and so are their
/// CAPTCHA pages, but for those of the mail host.
pub proof fn law_endpoints_of_other_apps_are_blocked(
    url: UrlView,
    on_captcha: bool,
    pairs: Seq<(Seq<char>, Seq<char>)>,
    app: Seq<char>,
    rest: Seq<char>,
)
    requires
        url.scheme == "https"@ || url.scheme == "http"@,
        ({
            ||| app == "calendar"@
            ||| app == "contacts"@
            ||| app == "docs"@
            ||| app == "mail"@ && !has_prefix(url.path, "/api/core/v4/captcha"@) && !has_prefix(
                url.path,
                "/captcha/"@,
            )
            ||| app == "pass"@
            ||| app == "wallet"@
            ||| app == "vpn"@
        }),
        url.host == Some(app + ".proton.me"@),
        url.path == "/api/"@ + rest || url.path == "/captcha/"@ + rest,
    ensures
        navigation_rule(url, on_captcha, completion_token(url, pairs)) == NavigationView::Block,
{
    lemma_schemes();
    lemma_hosts();
    lemma_paths();
    law_apps_that_are_not_carried(app, url.host->0);
    lemma_no_widget(url.host->0);
    law_finished_sign_ins(url);
    law_prefix_is_what_stands_first(url.path, "/api/"@, rest);
    law_prefix_is_what_stands_first(url.path, "/captcha/"@, rest);
    if has_prefix(url.path, "/api/"@) {
        lemma_other_beginning(url.path, "/api/"@, "/login"@, 1);
    } else {
        lemma_other_beginning(url.path, "/captcha/"@, "/login"@, 1);
    }
    reveal_strlit(".proton.me");
    reveal_strlit("calendar");
    reveal_strlit("contacts");
    reveal_strlit("docs");
    reveal_strlit("mail");
    reveal_strlit("pass");
    reveal_strlit("wallet");
    reveal_strlit("vpn");
    assert((app + ".proton.me"@)[0] == app[0]);
    assert("calendar"@[0] == 'c' && "contacts"@[0] == 'c' && "docs"@[0] == 'd');
    assert("pass"@[0] == 'p' && "wallet"@[0] == 'w' && "vpn"@[0] == 'v');
}

} // verus!
