//! Parsed URLs and their query pairs.

use crate::percent::{form_text, is_form_text};
use crate::text::{has_prefix, split};
use vstd::prelude::*;

verus! {

/// The components of an absolute URL that routing decisions read.
#[derive(Debug, Clone)]
pub struct Url {
    /// The scheme, without the colon.
    pub scheme: String,
    /// The host, where the URL has one.
    pub host: Option<String>,
    /// The path, percent-encoded.
    pub path: String,
    /// The query, percent-encoded and without the question mark, where the URL has one.
    pub query: Option<String>,
    /// The whole URL in its serialized form.
    pub text: String,
}

/// The mathematical counterpart of [`Url`].
#[verifier::ext_equal]
pub struct UrlView {
    pub scheme: Seq<char>,
    pub host: Option<Seq<char>>,
    pub path: Seq<char>,
    pub query: Option<Seq<char>>,
    pub text: Seq<char>,
}

/// The view of an optional string.
pub open spec fn opt_view(s: Option<String>) -> Option<Seq<char>> {
    match s {
        Some(x) => Some(x@),
        None => None,
    }
}

/// The view of an optional string slice.
pub open spec fn opt_str_view(s: Option<&str>) -> Option<Seq<char>> {
    match s {
        Some(x) => Some(x@),
        None => None,
    }
}

/// The views of an optional pair of strings.
pub open spec fn opt_pair_view(p: Option<(String, String)>) -> Option<(Seq<char>, Seq<char>)> {
    match p {
        Some((a, b)) => Some((a@, b@)),
        None => None,
    }
}

/// The views of a list of name and value pairs.
pub open spec fn pair_views(v: Seq<(String, String)>) -> Seq<(Seq<char>, Seq<char>)> {
    v.map_values(|p: (String, String)| (p.0@, p.1@))
}

impl View for Url {
    type V = UrlView;

    open spec fn view(&self) -> UrlView {
        UrlView {
            scheme: self.scheme@,
            host: opt_view(self.host),
            path: self.path@,
            query: opt_view(self.query),
            text: self.text@,
        }
    }
}

impl UrlView {
    /// Behind a host the path is empty or starts with a slash.
    pub open spec fn well_formed(self) -> bool {
        self.host is Some && self.path.len() > 0 ==> self.path[0] == '/'
    }

    /// The query, or the empty text where there is none.
    pub open spec fn query_text(self) -> Seq<char> {
        match self.query {
            Some(q) => q,
            None => Seq::empty(),
        }
    }
}

/// The components of the URL that `url::Url::parse` reads out of a text, if it accepts the text.
pub uninterp spec fn parsed_url(text: Seq<char>) -> Option<UrlView>;

/// The name and value pairs that `url::form_urlencoded::parse` reads out of a query.
pub uninterp spec fn form_pairs(query: Seq<char>) -> Seq<(Seq<char>, Seq<char>)>;

/// The view of an optional URL.
pub open spec fn opt_url_view(u: Option<Url>) -> Option<UrlView> {
    match u {
        Some(x) => Some(x@),
        None => None,
    }
}

/// The part of `s` before its first `=`, and the part after it: all of `s` and nothing where it
/// holds none.
pub open spec fn name_and_value(s: Seq<char>) -> (Seq<char>, Seq<char>) {
    if s.contains('=') {
        (s.take(s.index_of_first('=')->0), s.skip(s.index_of_first('=')->0 + 1))
    } else {
        (s, Seq::empty())
    }
}

/// The name and the value in a piece of a query, decoded.
pub open spec fn decoded_pair(piece: Seq<char>) -> (Seq<char>, Seq<char>) {
    let (name, value) = name_and_value(piece);
    (form_text(name), form_text(value))
}

/// Every name and every value in a query stands for a text.
pub open spec fn is_decodable(query: Seq<char>) -> bool {
    forall|i: int|
        0 <= i < split(query, '&').len() ==> {
            let (name, value) = name_and_value(#[trigger] split(query, '&')[i]);
            is_form_text(name) && is_form_text(value)
        }
}

/// The decoded pairs of a query: one for each non-empty piece between the ampersands.
pub open spec fn decoded_pairs(query: Seq<char>) -> Seq<(Seq<char>, Seq<char>)> {
    split(query, '&').filter(|piece: Seq<char>| piece.len() > 0).map_values(
        |piece: Seq<char>| decoded_pair(piece),
    )
}

/// A character that stays as it is in the query of a local URL: visible ASCII, but for the
/// quotation mark, the number sign and the angle brackets.
pub open spec fn is_query_char(c: char) -> bool {
    '!' <= c <= '~' && c != '"' && c != '#' && c != '<' && c != '>'
}

/// A URL of the local account app, with a query in which every character stays as it is.
pub open spec fn is_account_return(text: Seq<char>) -> bool {
    let n = "tauri://localhost/account/?"@.len() as int;
    has_prefix(text, "tauri://localhost/account/?"@) && forall|i: int|
        n <= i < text.len() ==> is_query_char(#[trigger] text[i])
}

/// The components of such a URL.
pub open spec fn account_return(text: Seq<char>) -> UrlView {
    UrlView {
        scheme: "tauri"@,
        host: Some("localhost"@),
        path: "/account/"@,
        query: Some(text.skip("tauri://localhost/account/?"@.len() as int)),
        text,
    }
}

/// Calls `url::Url::parse` and copies the components of its result.
///
/// Claimed: the result depends on the text alone, under the name [`parsed_url`]; behind a host the
/// path is empty or starts with a slash; and a URL of the local account app, whose query holds only
/// characters that need no encoding, is taken apart as it stands. Which other texts are accepted,
/// and how they are normalized, is left unsaid.
#[verifier::external_body]
fn parse_absolute(text: &str) -> (r: Option<Url>)
    ensures
        opt_url_view(r) == parsed_url(text@),
        r matches Some(u) ==> u@.well_formed(),
        is_account_return(text@) ==> opt_url_view(r) == Some(account_return(text@)),
{
    let url = url::Url::parse(text).ok()?;
    Some(
        Url {
            scheme: url.scheme().to_string(),
            host: url.host_str().map(|h| h.to_string()),
            path: url.path().to_string(),
            query: url.query().map(|q| q.to_string()),
            text: url.as_str().to_string(),
        },
    )
}

/// Calls `url::form_urlencoded::parse` and collects the decoded pairs in order.
///
/// Claimed: the pairs depend on the query alone, under the name [`form_pairs`]. The query is cut
/// apart at the ampersands, empty pieces are skipped, and each piece is cut at its first equals
/// sign. In names and values a plus sign becomes a space and percent-encoded bytes are decoded.
/// What comes out of bytes that are no well-formed UTF-8 is left unsaid.
#[verifier::external_body]
fn decode_form(query: &str) -> (r: Vec<(String, String)>)
    ensures
        pair_views(r@) == form_pairs(query@),
        is_decodable(query@) ==> pair_views(r@) == decoded_pairs(query@),
{
    url::form_urlencoded::parse(query.as_bytes()).into_owned().collect()
}

impl Url {
    /// Parses an absolute URL.
    pub fn parse(text: &str) -> (r: Option<Url>)
        ensures
            opt_url_view(r) == parsed_url(text@),
            r matches Some(u) ==> u@.well_formed(),
            is_account_return(text@) ==> opt_url_view(r) == Some(account_return(text@)),
    {
        parse_absolute(text)
    }

    /// The host, where the URL has one.
    pub fn host_str(&self) -> (r: Option<&str>)
        ensures
            opt_str_view(r) == self@.host,
    {
        match &self.host {
            Some(h) => Some(h.as_str()),
            None => None,
        }
    }

    /// The decoded name and value pairs of the query.
    pub fn query_pairs(&self) -> (r: Vec<(String, String)>)
        ensures
            pair_views(r@) == form_pairs(self@.query_text()),
            is_decodable(self@.query_text()) ==> pair_views(r@) == decoded_pairs(
                self@.query_text(),
            ),
    {
        match &self.query {
            Some(q) => decode_form(q.as_str()),
            None => {
                proof {
                    reveal_strlit("");
                    assert(""@ =~= Seq::empty());
                }
                decode_form("")
            },
        }
    }

    /// The query behind a question mark, or nothing where there is no query.
    pub fn query_suffix(&self) -> (r: String)
        ensures
            r@ == query_suffix(self@.query),
    {
        let mut r = String::new();
        if let Some(q) = &self.query {
            r.append("?");
            r.append(q.as_str());
        }
        r
    }
}

/// `query` behind a question mark, or nothing where there is no query.
pub open spec fn query_suffix(query: Option<Seq<char>>) -> Seq<char> {
    match query {
        Some(q) => "?"@ + q,
        None => Seq::empty(),
    }
}

/// A query follows a question mark; without one nothing follows.
pub proof fn law_query_follows_a_question_mark(query: Seq<char>)
    ensures
        query_suffix(Some(query)) == seq!['?'] + query,
        query_suffix(None).len() == 0,
{
    reveal_strlit("?");
    assert("?"@ =~= seq!['?']);
}

} // verus!
