//! What is kept in memory while a sign-in passes through a CAPTCHA.

use crate::navigation::{decide_navigation, navigation_rule, NavigationAction, NavigationView};
use crate::proton_navigation::completion_token;
use crate::web_url::{
    decoded_pairs, form_pairs, is_decodable, opt_pair_view, opt_url_view, opt_view, parsed_url, Url,
    UrlView,
};
use vstd::prelude::*;

verus! {

/// The page of the account app, to which the web view returns after a CAPTCHA.
pub const ACCOUNT_APP_URL: &'static str = "tauri://localhost/account/";

/// What the shell keeps in memory while a sign-in passes through a CAPTCHA.
pub struct CaptchaFlow {
    on_captcha_page: bool,
    return_url: Option<String>,
    pending_verification: Option<(String, String)>,
    pending_credentials: Option<(String, String)>,
}

/// The mathematical counterpart of [`CaptchaFlow`].
#[verifier::ext_equal]
pub struct CaptchaFlowView {
    /// The web view is on a page of a CAPTCHA.
    pub on_captcha_page: bool,
    /// The page to return to.
    pub return_url: Option<Seq<char>>,
    /// A verification token and its type.
    pub pending_verification: Option<(Seq<char>, Seq<char>)>,
    /// A user name and a password.
    pub pending_credentials: Option<(Seq<char>, Seq<char>)>,
}

impl View for CaptchaFlow {
    type V = CaptchaFlowView;

    closed spec fn view(&self) -> CaptchaFlowView {
        CaptchaFlowView {
            on_captcha_page: self.on_captcha_page,
            return_url: opt_view(self.return_url),
            pending_verification: opt_pair_view(self.pending_verification),
            pending_credentials: opt_pair_view(self.pending_credentials),
        }
    }
}

impl CaptchaFlowView {
    /// Nothing is kept.
    pub open spec fn initial() -> CaptchaFlowView {
        CaptchaFlowView {
            on_captcha_page: false,
            return_url: None,
            pending_verification: None,
            pending_credentials: None,
        }
    }

    /// The state with a verification token in place of the earlier one.
    pub open spec fn with_verification(self, token: Seq<char>, token_type: Seq<char>) -> Self {
        CaptchaFlowView { pending_verification: Some((token, token_type)), ..self }
    }

    /// The state without a verification token.
    pub open spec fn without_verification(self) -> Self {
        CaptchaFlowView { pending_verification: None, ..self }
    }

    /// The state with credentials in place of the earlier ones.
    pub open spec fn with_credentials(self, username: Seq<char>, password: Seq<char>) -> Self {
        CaptchaFlowView { pending_credentials: Some((username, password)), ..self }
    }

    /// The state without credentials.
    pub open spec fn without_credentials(self) -> Self {
        CaptchaFlowView { pending_credentials: None, ..self }
    }

    /// The state with a page to return to.
    pub open spec fn with_return_url(self, return_url: Seq<char>) -> Self {
        CaptchaFlowView { return_url: Some(return_url), ..self }
    }

    /// The state without a page to return to.
    pub open spec fn without_return_url(self) -> Self {
        CaptchaFlowView { return_url: None, ..self }
    }

    /// The state after a navigation that was decided by `action`.
    pub open spec fn after(self, action: NavigationView) -> Self {
        match action {
            NavigationView::AcceptCaptcha { token, token_type } => CaptchaFlowView {
                on_captcha_page: false,
                pending_verification: Some((token, token_type)),
                ..self
            },
            NavigationView::EnterCaptcha => CaptchaFlowView { on_captcha_page: true, ..self },
            _ => self,
        }
    }
}

impl CaptchaFlow {
    /// A state in which nothing is kept.
    pub fn new() -> (r: CaptchaFlow)
        ensures
            r@ == CaptchaFlowView::initial(),
    {
        CaptchaFlow {
            on_captcha_page: false,
            return_url: None,
            pending_verification: None,
            pending_credentials: None,
        }
    }

    /// Whether the web view is on a page of a CAPTCHA.
    pub fn on_captcha_page(&self) -> (r: bool)
        ensures
            r == self@.on_captcha_page,
    {
        self.on_captcha_page
    }

    /// Keeps a verification token.
    pub fn store_verification_token(&mut self, token: String, token_type: String)
        ensures
            final(self)@ == old(self)@.with_verification(token@, token_type@),
    {
        self.pending_verification = Some((token, token_type));
    }

    /// Hands out the verification token, which is kept no longer.
    pub fn get_and_clear_verification_token(&mut self) -> (r: Option<(String, String)>)
        ensures
            opt_pair_view(r) == old(self)@.pending_verification,
            final(self)@ == old(self)@.without_verification(),
    {
        self.pending_verification.take()
    }

    /// Keeps the credentials of a sign-in.
    pub fn store_login_credentials(&mut self, username: String, password: String)
        ensures
            final(self)@ == old(self)@.with_credentials(username@, password@),
    {
        self.pending_credentials = Some((username, password));
    }

    /// Hands out the credentials, which are kept no longer.
    pub fn get_and_clear_login_credentials(&mut self) -> (r: Option<(String, String)>)
        ensures
            opt_pair_view(r) == old(self)@.pending_credentials,
            final(self)@ == old(self)@.without_credentials(),
    {
        self.pending_credentials.take()
    }

    /// Hands out the page to return to after a CAPTCHA, which is kept no longer.
    pub fn get_captcha_return_url(&mut self) -> (r: Option<String>)
        ensures
            opt_view(r) == old(self)@.return_url,
            final(self)@ == old(self)@.without_return_url(),
    {
        self.return_url.take()
    }

    /// Starts a CAPTCHA: keeps the page to return to and, where there is a window, gives the URL
    /// that it has to open.
    pub fn navigate_to_captcha(
        &mut self,
        captcha_url: &str,
        return_url: String,
        has_window: bool,
    ) -> (r: Result<Option<Url>, String>)
        ensures
            final(self)@ == old(self)@.with_return_url(return_url@),
            captcha_opening(
                r,
                has_window,
                if has_window {
                    parsed_url(captcha_url@)
                } else {
                    None
                },
            ),
    {
        self.return_url = Some(return_url);
        let parsed = if has_window {
            Url::parse(captcha_url)
        } else {
            None
        };
        captcha_window_url(has_window, parsed)
    }

    /// Decides about a navigation and keeps track of the CAPTCHA.
    pub fn on_navigation(&mut self, url: &Url) -> (r: NavigationAction)
        ensures
            r@ == navigation_rule(
                url@,
                old(self)@.on_captcha_page,
                completion_token(url@, form_pairs(url@.query_text())),
            ),
            is_decodable(url@.query_text()) ==> r@ == navigation_rule(
                url@,
                old(self)@.on_captcha_page,
                completion_token(url@, decoded_pairs(url@.query_text())),
            ),
            final(self)@ == old(self)@.after(r@),
    {
        let action = decide_navigation(url, self.on_captcha_page);
        self.record(&action);
        action
    }

    /// Keeps track of the CAPTCHA after a navigation that was decided by `action`.
    pub fn record(&mut self, action: &NavigationAction)
        ensures
            final(self)@ == old(self)@.after(action@),
    {
        match action {
            NavigationAction::AcceptCaptcha { token, token_type } => {
                self.on_captcha_page = false;
                self.pending_verification = Some((token.clone(), token_type.clone()));
            },
            NavigationAction::EnterCaptcha => {
                self.on_captcha_page = true;
            },
            _ => {},
        }
    }
}

/// `r` is the right answer to a request for a CAPTCHA whose URL reads as `parsed`: a URL that
/// cannot be read is an error where a window has to open it, and nothing is opened without one.
pub open spec fn captcha_opening(
    r: Result<Option<Url>, String>,
    has_window: bool,
    parsed: Option<UrlView>,
) -> bool {
    match r {
        Ok(opened) => opt_url_view(opened) == (if has_window {
            parsed
        } else {
            None
        }) && (has_window ==> parsed is Some),
        Err(e) => has_window && parsed is None && e@ == "Unable to open verification page"@,
    }
}

/// The URL that the window has to open for a CAPTCHA, given what its text reads as.
pub fn captcha_window_url(has_window: bool, parsed: Option<Url>) -> (r: Result<
    Option<Url>,
    String,
>)
    ensures
        captcha_opening(r, has_window, opt_url_view(parsed)),
{
    if has_window {
        match parsed {
            Some(url) => Ok(Some(url)),
            None => Err("Unable to open verification page".to_string()),
        }
    } else {
        Ok(None)
    }
}

/// Verification tokens, credentials and the page to return to are handed out as they were stored,
/// and once only: what was handed out is gone.
pub proof fn law_handed_out_once(
    flow: CaptchaFlowView,
    first: Seq<char>,
    second: Seq<char>,
)
    ensures
        flow.with_verification(first, second).pending_verification == Some((first, second)),
        flow.without_verification().pending_verification is None,
        flow.with_credentials(first, second).pending_credentials == Some((first, second)),
        flow.without_credentials().pending_credentials is None,
        flow.with_return_url(first).return_url == Some(first),
        flow.without_return_url().return_url is None,
        flow.with_verification(first, second).without_verification()
            == flow.without_verification(),
        flow.with_credentials(first, second).without_credentials() == flow.without_credentials(),
        flow.with_return_url(first).without_return_url() == flow.without_return_url(),
{
}

/// The decision about `url` in the state `flow`.
pub open spec fn navigation_in(flow: CaptchaFlowView, url: UrlView) -> NavigationView {
    navigation_rule(
        url,
        flow.on_captcha_page,
        completion_token(url, form_pairs(url.query_text())),
    )
}

/// The state after a run of navigations.
pub open spec fn after_all(flow: CaptchaFlowView, urls: Seq<UrlView>) -> CaptchaFlowView
    decreases urls.len(),
{
    if urls.len() == 0 {
        flow
    } else {
        let before = after_all(flow, urls.drop_last());
        before.after(navigation_in(before, urls.last()))
    }
}

/// No run of navigations touches the stored credentials or the page to return to.
pub proof fn law_navigation_keeps_credentials(flow: CaptchaFlowView, urls: Seq<UrlView>)
    ensures
        after_all(flow, urls).pending_credentials == flow.pending_credentials,
        after_all(flow, urls).return_url == flow.return_url,
    decreases urls.len(),
{
    if urls.len() > 0 {
        law_navigation_keeps_credentials(flow, urls.drop_last());
    }
}

/// A CAPTCHA is complete only when a URL hands back a verification token: as long as none does,
/// no run of navigations ends the CAPTCHA or changes the stored token.
pub proof fn law_only_a_token_completes_a_captcha(flow: CaptchaFlowView, urls: Seq<UrlView>)
    requires
        forall|i: int|
            0 <= i < urls.len() ==> completion_token(
                #[trigger] urls[i],
                form_pairs(urls[i].query_text()),
            ) is None,
    ensures
        flow.on_captcha_page ==> after_all(flow, urls).on_captcha_page,
        after_all(flow, urls).pending_verification == flow.pending_verification,
    decreases urls.len(),
{
    if urls.len() > 0 {
        let front = urls.drop_last();
        assert forall|i: int| 0 <= i < front.len() implies completion_token(
            #[trigger] front[i],
            form_pairs(front[i].query_text()),
        ) is None by {
            assert(front[i] == urls[i]);
        }
        law_only_a_token_completes_a_captcha(flow, front);
        assert(urls.last() == urls[urls.len() - 1]);
    }
}

/// Outside a CAPTCHA no navigation stores a verification token.
pub proof fn law_no_token_outside_a_captcha(flow: CaptchaFlowView, url: UrlView)
    requires
        !flow.on_captcha_page,
    ensures
        flow.after(navigation_in(flow, url)).pending_verification == flow.pending_verification,
{
}

/// At first nothing is kept, and the web view is on no CAPTCHA.
pub proof fn law_nothing_is_kept_at_first()
    ensures
        !CaptchaFlowView::initial().on_captcha_page,
        CaptchaFlowView::initial().return_url is None,
        CaptchaFlowView::initial().pending_verification is None,
        CaptchaFlowView::initial().pending_credentials is None,
{
}

/// Storing or handing out one thing leaves all else as it is.
pub proof fn law_kept_things_are_independent(
    flow: CaptchaFlowView,
    first: Seq<char>,
    second: Seq<char>,
    which: bool,
)
    ensures
        ({
            let changed = if which {
                flow.with_verification(first, second)
            } else {
                flow.without_verification()
            };
            &&& changed.on_captcha_page == flow.on_captcha_page
            &&& changed.return_url == flow.return_url
            &&& changed.pending_credentials == flow.pending_credentials
        }),
        ({
            let changed = if which {
                flow.with_credentials(first, second)
            } else {
                flow.without_credentials()
            };
            &&& changed.on_captcha_page == flow.on_captcha_page
            &&& changed.return_url == flow.return_url
            &&& changed.pending_verification == flow.pending_verification
        }),
        ({
            let changed = if which {
                flow.with_return_url(first)
            } else {
                flow.without_return_url()
            };
            &&& changed.on_captcha_page == flow.on_captcha_page
            &&& changed.pending_verification == flow.pending_verification
            &&& changed.pending_credentials == flow.pending_credentials
        }),
{
}

/// A CAPTCHA is entered and left by navigations: one into it marks it, one that hands back a token
/// leaves it and keeps the token, and no other changes anything.
pub proof fn law_navigations_enter_and_leave_the_captcha(
    flow: CaptchaFlowView,
    action: NavigationView,
    token: Seq<char>,
    kind: Seq<char>,
)
    ensures
        ({
            let left = flow.after(NavigationView::AcceptCaptcha { token, token_type: kind });
            &&& !left.on_captcha_page
            &&& left.pending_verification == Some((token, kind))
            &&& left.pending_credentials == flow.pending_credentials
            &&& left.return_url == flow.return_url
        }),
        ({
            let entered = flow.after(NavigationView::EnterCaptcha);
            &&& entered.on_captcha_page
            &&& entered.pending_verification == flow.pending_verification
            &&& entered.pending_credentials == flow.pending_credentials
            &&& entered.return_url == flow.return_url
        }),
        !(action is AcceptCaptcha) && !(action is EnterCaptcha) ==> flow.after(action) == flow,
{
}

/// Where there is a window, it opens the URL of the CAPTCHA, or the request fails because the URL
/// cannot be read; without a window nothing is opened, and nothing fails.
pub proof fn law_captcha_opens_in_the_window(
    r: Result<Option<Url>, String>,
    url: UrlView,
    parsed: Option<UrlView>,
)
    ensures
        captcha_opening(r, true, Some(url)) ==> r is Ok && r->Ok_0 is Some && r->Ok_0->0@ == url,
        captcha_opening(r, true, None) ==> r is Err && r->Err_0@
            == "Unable to open verification page"@,
        captcha_opening(r, false, parsed) ==> r is Ok && r->Ok_0 is None,
{
}

} // verus!
