use proton_drive::captcha::{captcha_window_url, CaptchaFlow, ACCOUNT_APP_URL};
use proton_drive::navigation::{
    decide_navigation, login_target_url, navigation_for, NavigationAction,
};
use proton_drive::proton_navigation::{
    account_login_complete_redirect_url, captcha_completion_token, challenge_frame_source_url,
    completion_token_from_pairs, drive_root_for_user_path, is_account_login_complete_host,
    is_challenge_frame_url, is_local_app_host, is_unsupported_proton_app_host,
    unsupported_app_redirect_url,
};
use proton_drive::web_url::Url;

fn url(text: &str) -> Url {
    Url::parse(text).unwrap()
}

fn pair(a: &str, b: &str) -> (String, String) {
    (a.to_string(), b.to_string())
}

fn redirect(action: NavigationAction) -> String {
    match action {
        NavigationAction::Redirect { target } => target,
        other => panic!("not a redirect: {:?}", other),
    }
}

#[test]
fn redirects_unsupported_app_to_user_scoped_drive_root() {
    let url = Url::parse("https://mail.proton.me/u/7/mail/inbox").unwrap();
    assert_eq!(
        unsupported_app_redirect_url(&url).as_deref(),
        Some("tauri://localhost/u/7/")
    );
}

#[test]
fn skips_proton_api_and_captcha_paths() {
    let api_url = Url::parse("https://mail.proton.me/api/core/v4/users").unwrap();
    let captcha_url = Url::parse("https://mail.proton.me/captcha/token").unwrap();

    assert_eq!(unsupported_app_redirect_url(&api_url), None);
    assert_eq!(unsupported_app_redirect_url(&captcha_url), None);
}

#[test]
fn ignores_supported_drive_host() {
    let url = Url::parse("https://drive.proton.me/u/7/").unwrap();
    assert_eq!(unsupported_app_redirect_url(&url), None);
}

#[test]
fn redirects_account_proton_drive_handoff_to_local_drive_root() {
    let url = Url::parse("https://account.proton.me/u/7/drive/account").unwrap();
    assert_eq!(
        account_login_complete_redirect_url(&url).as_deref(),
        Some("tauri://localhost/")
    );
}

#[test]
fn redirects_local_account_drive_handoff_to_local_drive_root() {
    let url = Url::parse("tauri://localhost/account/u/7/drive/account").unwrap();
    assert_eq!(
        account_login_complete_redirect_url(&url).as_deref(),
        Some("tauri://localhost/")
    );
}

#[test]
fn ignores_incomplete_account_routes() {
    let url = Url::parse("tauri://localhost/account/login").unwrap();
    assert_eq!(account_login_complete_redirect_url(&url), None);
}

#[test]
fn accepts_only_explicit_captcha_completion_token_return() {
    let url =
        Url::parse("tauri://localhost/account/?hv_token=token-123&hv_type=captcha").unwrap();
    assert_eq!(
        captcha_completion_token(&url),
        Some(("token-123".to_string(), "captcha".to_string()))
    );
}

#[test]
fn rejects_account_return_without_captcha_token() {
    let url = Url::parse("tauri://localhost/account/").unwrap();
    assert_eq!(captcha_completion_token(&url), None);
}

#[test]
fn allows_local_challenge_frames_only() {
    let challenge = Url::parse(
        "tauri://localhost/api/challenge/v4/html?Type=0&Name=login&Lang=en-US&Dir=ltr",
    )
    .unwrap();
    let other_api = Url::parse("tauri://localhost/api/core/v4/auth/info").unwrap();
    let remote = Url::parse("https://account.proton.me/api/challenge/v4/html").unwrap();

    assert!(is_challenge_frame_url(&challenge));
    assert!(!is_challenge_frame_url(&other_api));
    assert!(!is_challenge_frame_url(&remote));
}

#[test]
fn rejects_captcha_internal_navigation_as_completion() {
    let about = Url::parse("about:blank").unwrap();
    let verify_api = Url::parse("https://verify-api.proton.me/core/v4/captcha").unwrap();

    assert_eq!(captcha_completion_token(&about), None);
    assert_eq!(captcha_completion_token(&verify_api), None);
}

#[test]
fn url_components_are_normalized() {
    let u = url("HTTPS://Account.Proton.ME:443/a/../b?x=1#frag");
    assert_eq!(u.scheme, "https");
    assert_eq!(u.host.as_deref(), Some("account.proton.me"));
    assert_eq!(u.path, "/b");
    assert_eq!(u.query.as_deref(), Some("x=1"));
    assert_eq!(u.text, "https://account.proton.me/b?x=1#frag");
    assert_eq!(u.query_suffix(), "?x=1");
    assert_eq!(url("about:blank").host_str(), None);
    assert_eq!(url("about:blank").query_suffix(), "");
    assert!(Url::parse("no scheme").is_none());
    assert!(Url::parse("").is_none());
}

#[test]
fn query_pairs_are_decoded() {
    assert_eq!(
        url("tauri://localhost/?a=b%20c&d+e=%C3%A9&&f&g=1=2").query_pairs(),
        vec![pair("a", "b c"), pair("d e", "é"), pair("f", ""), pair("g", "1=2")]
    );
    assert_eq!(
        url("tauri://localhost/?a=%&b=%4&c=%zz&d=%+41&e=%2b%2B").query_pairs(),
        vec![
            pair("a", "%"),
            pair("b", "%4"),
            pair("c", "%zz"),
            pair("d", "% 41"),
            pair("e", "++"),
        ]
    );
    assert_eq!(url("tauri://localhost/").query_pairs(), vec![]);
}

#[test]
fn every_unsupported_app_is_known() {
    for app in ["calendar", "contacts", "docs", "mail", "pass", "wallet", "vpn"] {
        let host = format!("{}.proton.me", app);
        assert!(is_unsupported_proton_app_host(&host));
        assert_eq!(
            unsupported_app_redirect_url(&url(&format!("https://{}/", host))).as_deref(),
            Some("tauri://localhost/")
        );
    }
    assert!(!is_unsupported_proton_app_host("drive.proton.me"));
    assert!(!is_unsupported_proton_app_host("account.proton.me"));
    assert!(!is_unsupported_proton_app_host("mail.proton.me.example"));
    assert_eq!(unsupported_app_redirect_url(&url("about:blank")), None);
}

#[test]
fn hosts_of_sign_in_and_shell_are_known() {
    assert!(is_account_login_complete_host(Some("account.proton.me")));
    assert!(is_account_login_complete_host(Some("account.localhost")));
    assert!(!is_account_login_complete_host(Some("localhost")));
    assert!(!is_account_login_complete_host(None));
    assert!(is_local_app_host(Some("localhost")));
    assert!(is_local_app_host(Some("tauri.localhost")));
    assert!(!is_local_app_host(Some("account.localhost")));
    assert!(!is_local_app_host(None));
}

#[test]
fn drive_root_is_scoped_to_the_user() {
    assert_eq!(drive_root_for_user_path("/u/12/mail/inbox"), "/u/12/");
    assert_eq!(drive_root_for_user_path("/u/12"), "/u/12/");
    assert_eq!(drive_root_for_user_path("/u/12/"), "/u/12/");
    assert_eq!(drive_root_for_user_path("/u//mail"), "/");
    assert_eq!(drive_root_for_user_path("/u/"), "/");
    assert_eq!(drive_root_for_user_path("/u"), "/");
    assert_eq!(drive_root_for_user_path("/inbox/u/3/"), "/");
    assert_eq!(drive_root_for_user_path(""), "/");
}

#[test]
fn sign_in_is_complete_on_drive_routes_only() {
    for text in [
        "https://account.localhost/u/0/drive",
        "https://account.localhost/account/u/0/drive/settings",
        "https://tauri.localhost/account/u/3/drive",
        "https://account.proton.me/u/7/anything/drive-x",
    ] {
        assert_eq!(
            account_login_complete_redirect_url(&url(text)).as_deref(),
            Some("tauri://localhost/"),
            "{}",
            text
        );
    }
    for text in [
        "tauri://localhost/u/7/drive",
        "tauri://localhost/account/x/u/7/drive",
        "https://account.proton.me/u/7/mail",
        "https://account.proton.me/drive",
        "https://example.com/account/u/7/drive",
        "about:blank",
    ] {
        assert_eq!(account_login_complete_redirect_url(&url(text)), None, "{}", text);
    }
}

#[test]
fn completion_token_takes_the_last_value_of_each_name() {
    let page = url("tauri://localhost/account/x");
    let pairs = vec![
        pair("hv_token", "first"),
        pair("hv_type", "captcha"),
        pair("other", "y"),
        pair("hv_token", "second"),
    ];
    assert_eq!(
        completion_token_from_pairs(&page, &pairs),
        Some(pair("second", "captcha"))
    );
    assert_eq!(
        completion_token_from_pairs(&page, &vec![pair("hv_token", "t")]),
        None
    );
    assert_eq!(
        completion_token_from_pairs(&page, &vec![pair("hv_token", ""), pair("hv_type", "c")]),
        None
    );
    assert_eq!(
        completion_token_from_pairs(&page, &vec![pair("hv_token", "t"), pair("hv_type", "")]),
        None
    );
    let both = vec![pair("hv_token", "t"), pair("hv_type", "c")];
    assert_eq!(completion_token_from_pairs(&url("tauri://localhost/"), &both), None);
    assert_eq!(
        completion_token_from_pairs(&url("https://localhost/account/"), &both),
        None
    );
    assert_eq!(
        completion_token_from_pairs(&url("tauri://example/account/"), &both),
        None
    );
    assert_eq!(
        captcha_completion_token(&url(
            "tauri://tauri.localhost/account/?hv_token=a%2Bb+c&hv_type=email"
        )),
        Some(pair("a+b c", "email"))
    );
}

fn encode_uri_component(text: &str) -> String {
    let mut encoded = String::new();
    for byte in text.bytes() {
        if byte.is_ascii_alphanumeric() || b"-_.!~*'()".contains(&byte) {
            encoded.push(byte as char);
        } else {
            encoded.push_str(&format!("%{:02X}", byte));
        }
    }
    encoded
}

#[test]
fn any_token_is_handed_over() {
    for token in ["a+b=c&d%e", "100%41", "é/ü?#\"<>", "\u{1f512} \t", "-_.!~*'()", "+", "%"] {
        for kind in ["captcha", "e+m&ä"] {
            let text = format!(
                "tauri://localhost/account/?hv_token={}&hv_type={}",
                encode_uri_component(token),
                encode_uri_component(kind)
            );
            let back = url(&text);
            assert_eq!(back.text, text);
            assert_eq!(captcha_completion_token(&back), Some(pair(token, kind)), "{}", text);
        }
    }
}

#[test]
fn visible_characters_of_a_local_query_stay() {
    for code in 0x21u8..0x7f {
        let c = code as char;
        let text = format!("tauri://localhost/account/?a{}b", c);
        let parsed = url(&text);
        assert_eq!(parsed.scheme, "tauri");
        assert_eq!(parsed.host.as_deref(), Some("localhost"));
        assert_eq!(parsed.path, "/account/");
        let kept = parsed.query == Some(format!("a{}b", c)) && parsed.text == text;
        assert_eq!(kept, !['"', '#', '<', '>'].contains(&c), "{}", c);
    }
}

#[test]
fn challenge_frames_are_fetched_from_the_account_host() {
    assert_eq!(
        challenge_frame_source_url(&url(
            "tauri://localhost/api/challenge/v4/html?Type=0&Name=login"
        )),
        "https://account.proton.me/api/challenge/v4/html?Type=0&Name=login"
    );
    assert_eq!(
        challenge_frame_source_url(&url("tauri://localhost/api/challenge/v4/html")),
        "https://account.proton.me/api/challenge/v4/html"
    );
}

#[test]
fn sign_in_queries_lose_the_expired_session() {
    assert_eq!(
        login_target_url(&url("tauri://localhost/login?reason=expired&a=1&type=error&b=2")),
        "tauri://localhost/account/?product=drive&a=1&b=2"
    );
    assert_eq!(
        login_target_url(&url("tauri://localhost/login")),
        "tauri://localhost/account/?product=drive"
    );
    assert_eq!(
        login_target_url(&url("tauri://localhost/login?")),
        "tauri://localhost/account/?product=drive&"
    );
    assert_eq!(
        redirect(decide_navigation(&url("https://mail.proton.me/login?x=y"), false)),
        "tauri://localhost/account/?product=drive&x=y"
    );
}

#[test]
fn proton_pages_are_moved_to_the_shell() {
    assert_eq!(
        redirect(decide_navigation(&url("https://account.proton.me/u/7/drive?a=b"), false)),
        "tauri://localhost/account/u/7/drive?a=b"
    );
    assert_eq!(
        redirect(decide_navigation(&url("https://drive.proton.me/u/7/x?a=b"), true)),
        "tauri://localhost/u/7/x?a=b"
    );
    assert_eq!(
        redirect(decide_navigation(&url("https://calendar.proton.me/u/4/week"), false)),
        "tauri://localhost/u/4/"
    );
    match decide_navigation(&url("tauri://localhost/account/u/7/drive/account"), false) {
        NavigationAction::FinishLogin { target } => assert_eq!(target, "tauri://localhost/"),
        other => panic!("{:?}", other),
    }
}

#[test]
fn blobs_are_saved() {
    match decide_navigation(&url("blob:tauri://localhost/1-2-3"), false) {
        NavigationAction::SaveBlob { blob_url } => {
            assert_eq!(blob_url, "blob:tauri://localhost/1-2-3");
        }
        other => panic!("{:?}", other),
    }
}

#[test]
fn api_endpoints_are_no_pages() {
    assert!(matches!(
        decide_navigation(&url("tauri://localhost/api/core/v4/users"), false),
        NavigationAction::Block
    ));
    assert!(matches!(
        decide_navigation(&url("https://mail.proton.me/api/core/v4/users"), true),
        NavigationAction::Block
    ));
    let frame = url("tauri://localhost/api/challenge/v4/html?Type=0");
    assert!(matches!(decide_navigation(&frame, false), NavigationAction::Allow));
    assert!(matches!(decide_navigation(&frame, true), NavigationAction::Allow));
}

#[test]
fn only_known_origins_are_reached() {
    for text in [
        "tauri://localhost/",
        "about:blank",
        "https://localhost/x",
        "http://tauri.localhost/",
        "https://hcaptcha.com/1/api.js",
        "https://newassets.hcaptcha.com/c",
    ] {
        let action = decide_navigation(&url(text), false);
        assert!(matches!(action, NavigationAction::Allow), "{}", text);
        assert!(action.allows());
    }
    for text in [
        "https://example.com/",
        "https://evilhcaptcha.com/",
        "https://proton.me/drive",
        "file:///etc/passwd",
        "data:text/html,x",
    ] {
        let action = decide_navigation(&url(text), false);
        assert!(matches!(action, NavigationAction::Block), "{}", text);
        assert!(!action.allows());
    }
}

#[test]
fn captcha_pages_are_entered() {
    for text in [
        "https://mail.proton.me/api/core/v4/captcha?Token=1",
        "https://mail.proton.me/captcha/x",
        "https://verify.proton.me/?token=1",
        "https://verify-api.proton.me/core/v4/captcha",
    ] {
        let action = decide_navigation(&url(text), false);
        assert!(matches!(action, NavigationAction::EnterCaptcha), "{}", text);
        assert!(action.allows());
    }
}

#[test]
fn tokens_count_inside_a_captcha_only() {
    let back = url("tauri://localhost/account/?hv_token=t&hv_type=captcha");
    assert!(matches!(decide_navigation(&back, false), NavigationAction::Allow));
    match decide_navigation(&back, true) {
        NavigationAction::AcceptCaptcha { token, token_type } => {
            assert_eq!((token.as_str(), token_type.as_str()), ("t", "captcha"));
        }
        other => panic!("{:?}", other),
    }
    assert!(matches!(
        navigation_for(&back, true, None),
        NavigationAction::Block
    ));
    assert!(matches!(
        navigation_for(&url("tauri://localhost/account/"), true, None),
        NavigationAction::Block
    ));
    assert!(matches!(
        navigation_for(&url("tauri://tauri.localhost/account/"), true, None),
        NavigationAction::Allow
    ));
}

#[test]
fn a_captcha_ends_with_a_token() {
    let mut flow = CaptchaFlow::new();
    assert!(!flow.on_captcha_page());
    flow.store_login_credentials("user".to_string(), "secret".to_string());
    let opened = flow
        .navigate_to_captcha("https://verify.proton.me/?a=1", "tauri://localhost/x".to_string(), true)
        .unwrap()
        .unwrap();
    assert_eq!(opened.text, "https://verify.proton.me/?a=1");

    assert!(flow.on_navigation(&opened).allows());
    assert!(flow.on_captcha_page());
    for text in [
        "about:blank",
        "https://verify-api.proton.me/core/v4/captcha",
        "https://newassets.hcaptcha.com/c",
        "tauri://localhost/account/",
        "https://example.com/",
    ] {
        flow.on_navigation(&url(text));
        assert!(flow.on_captcha_page(), "{}", text);
    }
    assert_eq!(flow.get_and_clear_verification_token(), None);

    let back = url("tauri://localhost/account/?hv_token=t-1&hv_type=captcha");
    assert!(!flow.on_navigation(&back).allows());
    assert!(!flow.on_captcha_page());
    assert_eq!(flow.get_and_clear_verification_token(), Some(pair("t-1", "captcha")));
    assert_eq!(flow.get_and_clear_verification_token(), None);
    assert_eq!(flow.get_and_clear_login_credentials(), Some(pair("user", "secret")));
    assert_eq!(flow.get_and_clear_login_credentials(), None);
    assert_eq!(flow.get_captcha_return_url().as_deref(), Some("tauri://localhost/x"));
    assert_eq!(flow.get_captcha_return_url(), None);

    assert!(flow.on_navigation(&back).allows());
    assert_eq!(flow.get_and_clear_verification_token(), None);
    assert_eq!(ACCOUNT_APP_URL, "tauri://localhost/account/");
}

#[test]
fn stored_tokens_are_replaced() {
    let mut flow = CaptchaFlow::new();
    flow.store_verification_token("a".to_string(), "x".to_string());
    flow.store_verification_token("b".to_string(), "y".to_string());
    assert_eq!(flow.get_and_clear_verification_token(), Some(pair("b", "y")));
    flow.record(&NavigationAction::AcceptCaptcha {
        token: "c".to_string(),
        token_type: "z".to_string(),
    });
    assert_eq!(flow.get_and_clear_verification_token(), Some(pair("c", "z")));
    flow.record(&NavigationAction::EnterCaptcha);
    assert!(flow.on_captcha_page());
    flow.record(&NavigationAction::Allow);
    assert!(flow.on_captcha_page());
}

#[test]
fn a_captcha_needs_a_url_that_can_be_read() {
    let mut flow = CaptchaFlow::new();
    let failed = flow.navigate_to_captcha("not a url", "back".to_string(), true);
    assert_eq!(failed.unwrap_err(), "Unable to open verification page");
    assert_eq!(flow.get_captcha_return_url().as_deref(), Some("back"));
    assert!(flow
        .navigate_to_captcha("not a url", "back".to_string(), false)
        .unwrap()
        .is_none());
    assert_eq!(flow.get_captcha_return_url().as_deref(), Some("back"));
    assert_eq!(
        captcha_window_url(true, None).unwrap_err(),
        "Unable to open verification page"
    );
    assert!(captcha_window_url(false, Some(url("about:blank"))).unwrap().is_none());
    assert_eq!(
        captcha_window_url(true, Some(url("about:blank"))).unwrap().unwrap().text,
        "about:blank"
    );
}
