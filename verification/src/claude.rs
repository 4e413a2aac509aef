//! The conversation with the assistant: its key, its requests and its answers.

use crate::numeral::{decimal, to_decimal};
use crate::paths::{join_path, joined};
use crate::text::eq_str;
use crate::trimming::{
    is_white, law_trimming_leaves_the_middle, lemma_trimmed, trim, trimmed, CharClass,
};
use crate::web_url::opt_view;
use vstd::prelude::*;
use vstd::utf8::encode_utf8;

verus! {

/// Where requests go.
pub const API_ENDPOINT: &'static str = "https://api.anthropic.com/v1/messages";

/// The version of the interface.
pub const API_VERSION: &'static str = "2023-06-01";

/// The most tokens that an answer may have.
pub const MAX_TOKENS: u32 = 4096;

/// The assistant that a build of the shell talks to.
#[derive(Debug, Clone)]
pub struct Assistant {
    /// The name that the user knows it by.
    pub name: String,
    /// The model that answers.
    pub model: String,
    /// The file, in the data directory of the application, that holds the key.
    pub key_file: String,
}

/// A turn of the conversation.
#[derive(Debug, Clone)]
pub struct ChatMessage {
    pub role: String,
    pub content: String,
}

/// The file that holds the key of an assistant, given the data directory of the application.
pub fn key_path(assistant: &Assistant, data_dir: &Vec<u8>) -> (r: Vec<u8>)
    ensures
        r@ == joined(data_dir@, encode_utf8(assistant.key_file@)),
{
    join_path(data_dir, assistant.key_file.as_str().as_bytes())
}

/// The file to be written when a key has been entered.
pub struct KeyFile {
    pub path: Vec<u8>,
    pub text: String,
}

/// What the key file holds after a key has been entered: the key without the white space around
/// it.
pub open spec fn stored_key(key: Seq<char>) -> Seq<char> {
    trimmed(key, CharClass::White)
}

/// Remembers a key.
pub fn claude_set_api_key(assistant: &Assistant, data_dir: &Vec<u8>, key: &str) -> (r: KeyFile)
    ensures
        r.path@ == joined(data_dir@, encode_utf8(assistant.key_file@)),
        r.text@ == stored_key(key@),
{
    KeyFile { path: key_path(assistant, data_dir), text: trim(key) }
}

/// A key is there: the file could be read and is not blank.
pub open spec fn key_configured(content: Option<Seq<char>>) -> bool {
    content is Some && trimmed(content->0, CharClass::White).len() > 0
}

/// Whether a key is there, given the content of the key file, if it could be read.
pub fn claude_get_key_configured(content: Option<String>) -> (r: bool)
    ensures
        r == key_configured(opt_view(content)),
{
    match content {
        Some(text) => !trim(text.as_str()).as_str().is_empty(),
        None => false,
    }
}

/// The file to be removed to forget the key, given whether it exists.
pub fn claude_clear_api_key(assistant: &Assistant, data_dir: &Vec<u8>, exists: bool) -> (r: Option<
    Vec<u8>,
>)
    ensures
        match r {
            Some(path) => exists && path@ == joined(data_dir@, encode_utf8(assistant.key_file@)),
            None => !exists,
        },
{
    if exists {
        Some(key_path(assistant, data_dir))
    } else {
        None
    }
}

/// The body of a request.
pub struct ApiRequest {
    pub model: String,
    pub max_tokens: u32,
    pub messages: Vec<ChatMessage>,
}

/// A request, ready to be sent.
pub struct ChatRequest {
    pub endpoint: &'static str,
    pub headers: Vec<(&'static str, String)>,
    pub body: ApiRequest,
}

/// The headers of a request that is made with the given key.
pub open spec fn chat_headers(key: Seq<char>) -> Seq<(Seq<char>, Seq<char>)> {
    seq![
        ("x-api-key"@, key),
        ("anthropic-version"@, API_VERSION@),
        ("content-type"@, "application/json"@),
    ]
}

/// The views of some headers.
pub open spec fn header_views(headers: Seq<(&'static str, String)>) -> Seq<(Seq<char>, Seq<char>)> {
    headers.map_values(|h: (&'static str, String)| (h.0@, h.1@))
}

/// The message to a user who has entered no key yet.
pub open spec fn key_missing(name: Seq<char>) -> Seq<char> {
    "API key not configured — set it via the "@ + name + " panel"@
}

/// Makes a request, given the content of the key file, if it could be read.
pub fn claude_chat(
    assistant: &Assistant,
    content: Option<String>,
    messages: Vec<ChatMessage>,
) -> (r: Result<ChatRequest, String>)
    ensures
        match r {
            Ok(request) => {
                &&& key_configured(opt_view(content))
                &&& request.endpoint@ == API_ENDPOINT@
                &&& request.endpoint@ == "https://api.anthropic.com/v1/messages"@
                &&& header_views(request.headers@) == chat_headers(stored_key(content->0@))
                &&& request.body.model@ == assistant.model@
                &&& request.body.max_tokens == MAX_TOKENS
                &&& request.body.max_tokens == 4096
                &&& request.body.messages == messages
            },
            Err(e) => {
                &&& !key_configured(opt_view(content))
                &&& e@ == if content is None {
                    key_missing(assistant.name@)
                } else {
                    "API key not configured"@
                }
            },
        },
{
    match content {
        Some(text) => {
            let key = trim(text.as_str());
            if key.as_str().is_empty() {
                return Err("API key not configured".to_string());
            }
            let mut headers: Vec<(&'static str, String)> = Vec::new();
            headers.push(("x-api-key", key));
            headers.push(("anthropic-version", API_VERSION.to_string()));
            headers.push(("content-type", "application/json".to_string()));
            assert(header_views(headers@) =~= chat_headers(stored_key(content->0@)));
            let body = ApiRequest {
                model: assistant.model.clone(),
                max_tokens: MAX_TOKENS,
                messages,
            };
            Ok(ChatRequest { endpoint: API_ENDPOINT, headers, body })
        },
        None => {
            let mut message = "API key not configured — set it via the ".to_string();
            message.append(assistant.name.as_str());
            message.append(" panel");
            Err(message)
        },
    }
}

/// A status that stands for success.
pub open spec fn is_success(status: u16) -> bool {
    200 <= status < 300
}

/// The message for an answer that does not stand for success.
pub open spec fn api_error(status: u16, body: Seq<char>) -> Seq<char> {
    "API error "@ + decimal(status as nat) + ": "@ + body
}

/// Checks the status of an answer; of one that does not stand for success the body is told, if it
/// could be read.
pub fn check_status(status: u16, body: Option<String>) -> (r: Result<(), String>)
    ensures
        match r {
            Ok(_) => is_success(status),
            Err(e) => !is_success(status) && e@ == api_error(
                status,
                match body {
                    Some(text) => text@,
                    None => Seq::empty(),
                },
            ),
        },
{
    if 200 <= status && status < 300 {
        return Ok(());
    }
    let mut message = "API error ".to_string();
    message.append(to_decimal(status as u64).as_str());
    message.append(": ");
    if let Some(text) = body {
        message.append(text.as_str());
    }
    proof {
        if body is None {
            assert(api_error(status, Seq::empty()) =~= message@);
        }
    }
    Err(message)
}

/// A part of an answer.
pub struct ApiContent {
    /// What the part holds.
    pub kind: String,
    pub text: Option<String>,
}

/// The part holds text.
pub open spec fn is_text(part: ApiContent) -> bool {
    part.kind@ == "text"@ && part.text is Some
}

/// The first text of an answer.
pub open spec fn first_text(parts: Seq<ApiContent>) -> Option<Seq<char>>
    decreases parts.len(),
{
    if parts.len() == 0 {
        None
    } else if is_text(parts.first()) {
        Some(parts.first().text->0@)
    } else {
        first_text(parts.drop_first())
    }
}

/// The answer, given its parts.
pub fn chat_answer(parts: &Vec<ApiContent>) -> (r: Result<String, String>)
    ensures
        match r {
            Ok(text) => first_text(parts@) == Some(text@),
            Err(e) => first_text(parts@) is None && e@ == "empty response from API"@,
        },
{
    let mut i: usize = 0;
    assert(parts@.skip(0) =~= parts@);
    while i < parts.len()
        invariant
            i <= parts.len(),
            first_text(parts@) == first_text(parts@.skip(i as int)),
        decreases parts.len() - i,
    {
        assert(parts@.skip(i as int).drop_first() =~= parts@.skip(i + 1));
        if eq_str(parts[i].kind.as_str(), "text") {
            if let Some(text) = &parts[i].text {
                return Ok(text.clone());
            }
        }
        i += 1;
    }
    Err("empty response from API".to_string())
}

/// A key that has been entered is there exactly if it is not blank, and requests are made with it
/// as it was stored.
pub proof fn law_entered_key_is_used(key: Seq<char>)
    ensures
        key_configured(Some(stored_key(key))) == (stored_key(key).len() > 0),
        stored_key(stored_key(key)) == stored_key(key),
{
    lemma_trimmed(key, CharClass::White);
}

/// A key is stored without the white space around it, and counts as there exactly if something else
/// was entered.
pub proof fn law_keys_lose_their_white_space(
    front: Seq<char>,
    key: Seq<char>,
    back: Seq<char>,
    blank: Seq<char>,
)
    requires
        forall|i: int| 0 <= i < front.len() ==> is_white(#[trigger] front[i]),
        forall|i: int| 0 <= i < back.len() ==> is_white(#[trigger] back[i]),
        forall|i: int| 0 <= i < blank.len() ==> is_white(#[trigger] blank[i]),
        key.len() > 0,
        !is_white(key.first()) && !is_white(key.last()),
    ensures
        stored_key(front + key + back) == key,
        key_configured(Some(front + key + back)),
        stored_key(blank) == Seq::<char>::empty(),
        !key_configured(Some(blank)),
        !key_configured(None),
{
    let none = Seq::<char>::empty();
    law_trimming_leaves_the_middle(front, key, back, CharClass::White);
    law_trimming_leaves_the_middle(blank, none, none, CharClass::White);
    assert(blank + none + none =~= blank);
}

/// A request carries the key, the version of the interface and the type of its body, each once and
/// nothing else.
pub proof fn law_requests_carry_the_key(key: Seq<char>)
    ensures
        chat_headers(key).len() == 3,
        chat_headers(key)[0] == ("x-api-key"@, key),
        chat_headers(key)[1] == ("anthropic-version"@, "2023-06-01"@),
        chat_headers(key)[2] == ("content-type"@, "application/json"@),
{
}

/// The messages to the user name the assistant, or the status and the whole body of the answer.
pub proof fn law_messages_tell_what_happened(name: Seq<char>, status: u16, body: Seq<char>)
    ensures
        key_missing(name) == "API key not configured — set it via the "@ + name + " panel"@,
        api_error(status, body) == "API error "@ + decimal(status as nat) + ": "@ + body,
        is_success(status) <==> status / 100 == 2,
{
}

/// The answer is the first text among the parts: whatever stands before it holds no text, and
/// whatever follows makes no difference.
pub proof fn law_first_text_is_the_answer(
    before: Seq<ApiContent>,
    part: ApiContent,
    after: Seq<ApiContent>,
)
    requires
        forall|i: int|
            0 <= i < before.len() ==> (#[trigger] before[i]).kind@ != "text"@ || before[i].text
                is None,
    ensures
        part.kind@ == "text"@ && part.text is Some ==> first_text(before + seq![part] + after)
            == Some(part.text->0@),
        first_text(before) is None,
    decreases before.len(),
{
    let whole = before + seq![part] + after;
    if before.len() == 0 {
        assert(whole.first() == part);
    } else {
        let rest = before.drop_first();
        assert forall|i: int| 0 <= i < rest.len() implies (#[trigger] rest[i]).kind@ != "text"@
            || rest[i].text is None by {
            assert(rest[i] == before[i + 1]);
        }
        law_first_text_is_the_answer(rest, part, after);
        assert(whole.first() == before[0]);
        assert(whole.drop_first() =~= rest + seq![part] + after);
    }
}

} // verus!
