//! The local server through which assistants call the tools of the Drive page.

use crate::json::{empty_object, member_of, Json, JsonNumber, JsonView};
use crate::named_map::NamedMap;
use crate::numeral::{
    decimal, is_digit, lemma_decimal_injective, lemma_decimal_round_trip, parse_u16, parsed_u16,
    to_decimal, unsigned_digits,
};
use crate::text::eq_str;
use crate::trimming::{is_white, law_trimming_leaves_the_middle, trim, trimmed, CharClass};
use crate::web_url::opt_view;
use vstd::prelude::*;

verus! {

/// The port that the server listens on.
pub const FIXED_PORT: u16 = 37242;

/// The file, among the temporary files, that holds the port.
pub const PORT_FILE: &'static str = "proton-drive-mcp.port";

/// The event that hands a tool call to the page.
pub const TOOL_CALL_EVENT: &'static str = "mcp://tool-call";

/// How long the page has to answer a tool call, in seconds.
pub const TOOL_CALL_TIMEOUT_SECONDS: u64 = 30;

/// The code of an error within a tool.
pub const INTERNAL_ERROR: i64 = -32603;

/// The code of a method that the server does not have.
pub const METHOD_NOT_FOUND: i64 = -32601;

/// A tool: its name and what it does.
pub struct Tool {
    pub name: &'static str,
    pub description: String,
}

/// The tools of the Drive page, by name and description, given the name of the assistant.
pub open spec fn tool_texts(assistant: Seq<char>) -> Seq<(Seq<char>, Seq<char>)> {
    seq![
        (
            "list_devices"@,
            "List the Linux computers synced to this Proton Drive account."@,
        ),
        (
            "get_drive_status"@,
            "Check whether the Proton Drive desktop client is running and the "@ + assistant
                + " API key is configured."@,
        ),
    ]
}

/// The tools of the Drive page, given the name of the assistant.
pub fn tools(assistant: &str) -> (r: Vec<Tool>)
    ensures
        r@.map_values(|t: Tool| (t.name@, t.description@)) == tool_texts(assistant@),
{
    let mut r: Vec<Tool> = Vec::new();
    r.push(
        Tool {
            name: "list_devices",
            description:
                "List the Linux computers synced to this Proton Drive account.".to_string(),
        },
    );
    let mut description =
        "Check whether the Proton Drive desktop client is running and the ".to_string();
    description.append(assistant);
    description.append(" API key is configured.");
    r.push(Tool { name: "get_drive_status", description });
    assert(r@.map_values(|t: Tool| (t.name@, t.description@)) =~= tool_texts(assistant@));
    r
}

/// The entry of a tool in the list of tools: it takes no arguments.
pub open spec fn tool_entry(tool: (Seq<char>, Seq<char>)) -> JsonView {
    JsonView::Object(
        seq![
            ("name"@, JsonView::Text(tool.0)),
            ("description"@, JsonView::Text(tool.1)),
            (
                "inputSchema"@,
                JsonView::Object(
                    seq![
                        ("type"@, JsonView::Text("object"@)),
                        ("properties"@, empty_object()),
                        ("required"@, JsonView::Array(Seq::empty())),
                    ],
                ),
            ),
        ],
    )
}

/// The list of tools.
pub open spec fn tool_list(assistant: Seq<char>) -> JsonView {
    JsonView::Array(
        tool_texts(assistant).map_values(|tool: (Seq<char>, Seq<char>)| tool_entry(tool)),
    )
}

fn tool_entry_json(tool: &Tool) -> (r: Json)
    ensures
        r@ == tool_entry((tool.name@, tool.description@)),
{
    let none: Vec<Json> = Vec::new();
    let required = Json::array(none);
    assert(required@->Array_0 =~= Seq::empty());
    let schema = Json::object().with("type", Json::of_text("object")).with(
        "properties",
        Json::object(),
    ).with("required", required);
    let r = Json::object().with("name", Json::of_text(tool.name)).with(
        "description",
        Json::of_text(tool.description.as_str()),
    ).with("inputSchema", schema);
    proof {
        let entry = tool_entry((tool.name@, tool.description@));
        assert(schema@->Object_0 =~= entry->Object_0[2].1->Object_0);
        assert(r@->Object_0 =~= entry->Object_0);
    }
    r
}

/// The list of tools, as it is sent.
pub fn tool_list_json(assistant: &str) -> (r: Json)
    ensures
        r@ == tool_list(assistant@),
{
    let all = tools(assistant);
    let ghost texts = all@.map_values(|t: Tool| (t.name@, t.description@));
    let mut entries: Vec<Json> = Vec::new();
    let mut i: usize = 0;
    while i < all.len()
        invariant
            i <= all.len(),
            entries.len() == i,
            texts == all@.map_values(|t: Tool| (t.name@, t.description@)),
            forall|j: int| 0 <= j < i ==> (#[trigger] entries@[j])@ == tool_entry(texts[j]),
        decreases all.len() - i,
    {
        entries.push(tool_entry_json(&all[i]));
        i += 1;
    }
    let r = Json::array(entries);
    assert(r@->Array_0 =~= tool_texts(assistant@).map_values(
        |tool: (Seq<char>, Seq<char>)| tool_entry(tool),
    ));
    r
}

/// The tool calls that wait for an answer of the page, and the number of the next one.
pub struct PendingCalls<T> {
    next: u64,
    waiting: NamedMap<T>,
}

/// What the state of the tool calls comes to.
pub ghost struct CallsView<T> {
    pub next: u64,
    pub waiting: Map<Seq<char>, T>,
}

impl<T> View for PendingCalls<T> {
    type V = CallsView<T>;

    closed spec fn view(&self) -> CallsView<T> {
        CallsView { next: self.next, waiting: self.waiting@ }
    }
}

/// The number after `n`; the last one is followed by the first.
pub open spec fn following(n: u64) -> u64 {
    if n == u64::MAX {
        0
    } else {
        (n + 1) as u64
    }
}

impl<T> CallsView<T> {
    /// The name of the next call.
    pub open spec fn next_id(self) -> Seq<char> {
        decimal(self.next as nat)
    }

    /// The state after a call has been handed to the page.
    pub open spec fn called(self, waiter: T) -> CallsView<T> {
        CallsView {
            next: following(self.next),
            waiting: self.waiting.insert(self.next_id(), waiter),
        }
    }

    /// The state after the page has answered a call.
    pub open spec fn answered(self, id: Seq<char>) -> CallsView<T> {
        CallsView { next: self.next, waiting: self.waiting.remove(id) }
    }

    /// Who waits for the answer to a call.
    pub open spec fn waiter(self, id: Seq<char>) -> Option<T> {
        if self.waiting.dom().contains(id) {
            Some(self.waiting[id])
        } else {
            None
        }
    }

    /// No call waits under a name that is yet to be given out.
    pub open spec fn fresh(self) -> bool {
        forall|n: u64| self.next <= n ==> !self.waiting.dom().contains(#[trigger] decimal(n as nat))
    }
}

/// What the page is told of a tool call.
pub open spec fn call_event(id: Seq<char>, name: Seq<char>, arguments: JsonView) -> JsonView {
    JsonView::Object(
        seq![
            ("id"@, JsonView::Text(id)),
            ("name"@, JsonView::Text(name)),
            ("arguments"@, arguments),
        ],
    )
}

/// What the page reported of a tool call: its result, or else its error.
pub open spec fn reported(result: Option<Seq<char>>, error: Option<Seq<char>>) -> Result<
    Seq<char>,
    Seq<char>,
> {
    match (result, error) {
        (Some(text), _) => Ok(text),
        (None, Some(e)) => Err(e),
        (None, None) => Err("no result or error from WebView"@),
    }
}

/// The view of a text or an error message.
pub open spec fn outcome_view(r: Result<String, String>) -> Result<Seq<char>, Seq<char>> {
    match r {
        Ok(text) => Ok(text@),
        Err(e) => Err(e@),
    }
}

/// An answer of the page, for the caller that waits for it.
pub struct Delivery<T> {
    pub waiter: T,
    pub outcome: Result<String, String>,
}

impl<T> PendingCalls<T> {
    /// The state is consistent.
    pub closed spec fn wf(self) -> bool {
        self.waiting.wf()
    }

    /// No calls yet; the first will have the number one.
    pub fn new() -> (r: PendingCalls<T>)
        ensures
            r.wf(),
            r@.next == 1,
            r@.waiting == Map::<Seq<char>, T>::empty(),
            r@.fresh(),
    {
        PendingCalls { next: 1, waiting: NamedMap::new() }
    }

    /// Registers a call with the one who waits for its answer, and gives what the page is told.
    pub fn dispatch_tool(&mut self, name: &str, arguments: Json, waiter: T) -> (r: Json)
        requires
            old(self).wf(),
        ensures
            final(self).wf(),
            final(self)@ == old(self)@.called(waiter),
            r@ == call_event(old(self)@.next_id(), name@, arguments@),
    {
        let id = to_decimal(self.next);
        let event = Json::object().with("id", Json::of_text(id.as_str())).with(
            "name",
            Json::of_text(name),
        ).with("arguments", arguments);
        assert(event@->Object_0 =~= call_event(id@, name@, arguments@)->Object_0);
        self.waiting.insert(id, waiter);
        self.next = self.next.wrapping_add(1);
        event
    }

    /// Takes the answer of the page to a call; an answer that nobody waits for is dropped.
    pub fn mcp_tool_result(
        &mut self,
        id: &str,
        result: Option<String>,
        error: Option<String>,
    ) -> (r: Option<Delivery<T>>)
        requires
            old(self).wf(),
        ensures
            final(self).wf(),
            final(self)@ == old(self)@.answered(id@),
            match r {
                Some(d) => {
                    &&& old(self)@.waiter(id@) == Some(d.waiter)
                    &&& outcome_view(d.outcome) == reported(opt_view(result), opt_view(error))
                    &&& result matches Some(text) ==> outcome_view(d.outcome) == Ok::<
                        Seq<char>,
                        Seq<char>,
                    >(text@)
                    &&& result is None ==> d.outcome is Err
                    &&& result is None && error is Some ==> outcome_view(d.outcome) == Err::<
                        Seq<char>,
                        Seq<char>,
                    >(error->0@)
                },
                None => old(self)@.waiter(id@) is None,
            },
    {
        match self.waiting.remove(id) {
            Some(waiter) => {
                let outcome = match (result, error) {
                    (Some(text), _) => Ok(text),
                    (None, Some(e)) => Err(e),
                    (None, None) => Err("no result or error from WebView".to_string()),
                };
                Some(Delivery { waiter, outcome })
            },
            None => None,
        }
    }
}

/// How the wait for the page ended.
pub enum CallEnd {
    /// The page answered.
    Answered(Result<String, String>),
    /// No answer came in time.
    TimedOut,
    /// The wait itself was cut short.
    Interrupted,
}

/// The outcome of a tool call, given how the wait for the page ended.
pub fn tool_outcome(end: CallEnd) -> (r: Result<String, String>)
    ensures
        outcome_view(r) == match end {
            CallEnd::Answered(outcome) => outcome_view(outcome),
            CallEnd::TimedOut => Err("tool call timed out"@),
            CallEnd::Interrupted => Err("spawn_blocking failed"@),
        },
{
    match end {
        CallEnd::Answered(outcome) => outcome,
        CallEnd::TimedOut => Err("tool call timed out".to_string()),
        CallEnd::Interrupted => Err("spawn_blocking failed".to_string()),
    }
}

/// A reply of the server.
pub struct McpReply {
    /// The HTTP status.
    pub status: u16,
    /// Whether pages of any origin may read the reply.
    pub cors: bool,
    /// What the reply holds.
    pub body: Option<Json>,
}

/// What a reply comes to.
pub ghost struct ReplyView {
    pub status: u16,
    pub cors: bool,
    pub body: Option<JsonView>,
}

impl View for McpReply {
    type V = ReplyView;

    open spec fn view(&self) -> ReplyView {
        ReplyView {
            status: self.status,
            cors: self.cors,
            body: match self.body {
                Some(value) => Some(value@),
                None => None,
            },
        }
    }
}

/// The headers of a reply that pages of any origin may read.
pub fn cors_headers() -> (r: Vec<(&'static str, &'static str)>)
    ensures
        r@.len() == 2,
        r@[0].0@ == "Access-Control-Allow-Origin"@,
        r@[0].1@ == "*"@,
        r@[1].0@ == "Access-Control-Allow-Headers"@,
        r@[1].1@ == "content-type, authorization"@,
{
    let mut r: Vec<(&'static str, &'static str)> = Vec::new();
    r.push(("Access-Control-Allow-Origin", "*"));
    r.push(("Access-Control-Allow-Headers", "content-type, authorization"));
    r
}

/// The reply to a question about what the server allows.
pub fn mcp_options() -> (r: McpReply)
    ensures
        r@ == (ReplyView { status: 204, cors: true, body: None }),
{
    McpReply { status: 204, cors: true, body: None }
}

/// The reply to a question about the health of the server.
pub fn health() -> (r: McpReply)
    ensures
        r@ == (ReplyView {
            status: 200,
            cors: false,
            body: Some(JsonView::Object(seq![("ok"@, JsonView::Bool(true))])),
        }),
{
    let body = Json::object().with("ok", Json::Bool(true));
    assert(body@->Object_0 =~= seq![("ok"@, JsonView::Bool(true))]);
    McpReply { status: 200, cors: false, body: Some(body) }
}

/// The content of a tool's answer: one text.
pub open spec fn text_content(text: Seq<char>) -> JsonView {
    JsonView::Object(
        seq![
            (
                "content"@,
                JsonView::Array(
                    seq![
                        JsonView::Object(
                            seq![
                                ("type"@, JsonView::Text("text"@)),
                                ("text"@, JsonView::Text(text)),
                            ],
                        ),
                    ],
                ),
            ),
        ],
    )
}

fn text_content_json(text: &str) -> (r: Json)
    ensures
        r@ == text_content(text@),
{
    let item = Json::object().with("type", Json::of_text("text")).with(
        "text",
        Json::of_text(text),
    );
    let mut items: Vec<Json> = Vec::new();
    items.push(item);
    let list = Json::array(items);
    let r = Json::object().with("content", list);
    proof {
        let goal = text_content(text@);
        let inner = goal->Object_0[0].1->Array_0;
        assert(item@->Object_0 =~= inner[0]->Object_0);
        assert(list@->Array_0 =~= inner);
        assert(r@->Object_0 =~= goal->Object_0);
    }
    r
}

/// An error: its code and its message.
pub open spec fn error_object(code: i64, message: Seq<char>) -> JsonView {
    JsonView::Object(
        seq![
            ("code"@, JsonView::Number(JsonNumber::Signed(code))),
            ("message"@, JsonView::Text(message)),
        ],
    )
}

fn error_json(code: i64, message: &str) -> (r: Json)
    ensures
        r@ == error_object(code, message@),
{
    let r = Json::object().with("code", Json::Number(JsonNumber::Signed(code))).with(
        "message",
        Json::of_text(message),
    );
    assert(r@->Object_0 =~= error_object(code, message@)->Object_0);
    r
}

/// The reply to the bridge with the list of tools.
pub fn legacy_list_tools(assistant: &str) -> (r: McpReply)
    ensures
        r@ == (ReplyView {
            status: 200,
            cors: false,
            body: Some(JsonView::Object(seq![("tools"@, tool_list(assistant@))])),
        }),
{
    let body = Json::object().with("tools", tool_list_json(assistant));
    assert(body@->Object_0 =~= seq![("tools"@, tool_list(assistant@))]);
    McpReply { status: 200, cors: false, body: Some(body) }
}

/// What the bridge is told of a tool call.
pub open spec fn bridge_body(outcome: Result<Seq<char>, Seq<char>>) -> JsonView {
    match outcome {
        Ok(text) => text_content(text),
        Err(e) => JsonView::Object(seq![("error"@, error_object(INTERNAL_ERROR, e))]),
    }
}

/// The reply to the bridge after a tool call.
pub fn legacy_call_tool(outcome: Result<String, String>) -> (r: McpReply)
    ensures
        r@ == (ReplyView {
            status: 200,
            cors: false,
            body: Some(bridge_body(outcome_view(outcome))),
        }),
{
    let body = match outcome {
        Ok(text) => text_content_json(text.as_str()),
        Err(e) => {
            let body = Json::object().with("error", error_json(INTERNAL_ERROR, e.as_str()));
            assert(body@->Object_0 =~= seq![("error"@, error_object(INTERNAL_ERROR, e@))]);
            body
        },
    };
    McpReply { status: 200, cors: false, body: Some(body) }
}

/// A reply to the request called `id`: its result, or its error.
pub open spec fn rpc_body(id: JsonView, kind: Seq<char>, value: JsonView) -> JsonView {
    JsonView::Object(seq![("jsonrpc"@, JsonView::Text("2.0"@)), ("id"@, id), (kind, value)])
}

fn rpc_json(id: &Json, kind: &str, value: Json) -> (r: Json)
    ensures
        r@ == rpc_body(id@, kind@, value@),
{
    let r = Json::object().with("jsonrpc", Json::of_text("2.0")).with("id", id.copy()).with(
        kind,
        value,
    );
    assert(r@->Object_0 =~= rpc_body(id@, kind@, value@)->Object_0);
    r
}

/// What the server tells of itself.
pub open spec fn server_description() -> JsonView {
    JsonView::Object(
        seq![
            ("protocolVersion"@, JsonView::Text("2024-11-05"@)),
            ("capabilities"@, JsonView::Object(seq![("tools"@, empty_object())])),
            (
                "serverInfo"@,
                JsonView::Object(
                    seq![
                        ("name"@, JsonView::Text("proton-drive"@)),
                        ("version"@, JsonView::Text("2.0.0"@)),
                    ],
                ),
            ),
        ],
    )
}

fn server_description_json() -> (r: Json)
    ensures
        r@ == server_description(),
{
    let capabilities = Json::object().with("tools", Json::object());
    let info = Json::object().with("name", Json::of_text("proton-drive")).with(
        "version",
        Json::of_text("2.0.0"),
    );
    let r = Json::object().with("protocolVersion", Json::of_text("2024-11-05")).with(
        "capabilities",
        capabilities,
    ).with("serverInfo", info);
    proof {
        let goal = server_description()->Object_0;
        assert(capabilities@->Object_0 =~= goal[1].1->Object_0);
        assert(info@->Object_0 =~= goal[2].1->Object_0);
        assert(r@->Object_0 =~= goal);
    }
    r
}

/// What the server does with a request.
pub enum McpStep {
    /// It replies at once.
    Reply(McpReply),
    /// It calls a tool, and replies to the request called `id` when the outcome is there.
    Call { id: Json, name: String, arguments: Json },
}

/// What a step comes to.
pub ghost enum StepView {
    Reply(ReplyView),
    Call { id: JsonView, name: Seq<char>, arguments: JsonView },
}

impl View for McpStep {
    type V = StepView;

    open spec fn view(&self) -> StepView {
        match self {
            McpStep::Reply(reply) => StepView::Reply(reply@),
            McpStep::Call { id, name, arguments } => StepView::Call {
                id: id@,
                name: name@,
                arguments: arguments@,
            },
        }
    }
}

/// The value of a member, or else the given one.
pub open spec fn member_or(value: JsonView, name: Seq<char>, default: JsonView) -> JsonView {
    match value.member(name) {
        Some(found) => found,
        None => default,
    }
}

/// The text of a member, or else the empty text.
pub open spec fn member_text(value: JsonView, name: Seq<char>) -> Seq<char> {
    match value.member(name) {
        Some(found) => match found.text() {
            Some(text) => text,
            None => Seq::empty(),
        },
        None => Seq::empty(),
    }
}

fn copy_or(value: &Json, name: &str, default: Json) -> (r: Json)
    ensures
        r@ == member_or(value@, name@, default@),
{
    match value.get(name) {
        Some(found) => found.copy(),
        None => default,
    }
}

fn text_or_empty(value: &Json, name: &str) -> (r: String)
    ensures
        r@ == member_text(value@, name@),
{
    if let Some(found) = value.get(name) {
        if let Some(text) = found.as_str() {
            return text.to_string();
        }
    }
    String::new()
}

/// The name of a request: null if it has none.
pub open spec fn request_id(request: JsonView) -> JsonView {
    member_or(request, "id"@, JsonView::Null)
}

/// The method that a request asks for: the empty one if it names none.
pub open spec fn request_method(request: JsonView) -> Seq<char> {
    member_text(request, "method"@)
}

/// A reply that pages of any origin may read.
pub open spec fn open_reply(status: u16, body: JsonView) -> ReplyView {
    ReplyView { status, cors: true, body: Some(body) }
}

/// What the server does with a request, given the name of the assistant.
pub open spec fn rpc_step(request: JsonView, assistant: Seq<char>) -> StepView {
    let id = request_id(request);
    let method = request_method(request);
    if method == "initialize"@ {
        StepView::Reply(open_reply(200, rpc_body(id, "result"@, server_description())))
    } else if method == "tools/list"@ {
        StepView::Reply(
            open_reply(
                200,
                rpc_body(id, "result"@, JsonView::Object(seq![("tools"@, tool_list(assistant))])),
            ),
        )
    } else if method == "tools/call"@ {
        let params = member_or(request, "params"@, JsonView::Null);
        StepView::Call {
            id,
            name: member_text(params, "name"@),
            arguments: member_or(params, "arguments"@, empty_object()),
        }
    } else if method == "ping"@ {
        StepView::Reply(open_reply(200, rpc_body(id, "result"@, empty_object())))
    } else if id == JsonView::Null {
        StepView::Reply(ReplyView { status: 202, cors: true, body: None })
    } else {
        StepView::Reply(
            open_reply(
                200,
                rpc_body(
                    id,
                    "error"@,
                    error_object(METHOD_NOT_FOUND, "Method not found: "@ + method),
                ),
            ),
        )
    }
}

fn reply_json(status: u16, body: Json) -> (r: McpStep)
    ensures
        r@ == StepView::Reply(open_reply(status, body@)),
{
    McpStep::Reply(McpReply { status, cors: true, body: Some(body) })
}

/// Decides what to do with a request, given the name of the assistant.
pub fn mcp_jsonrpc(request: &Json, assistant: &str) -> (r: McpStep)
    ensures
        r@ == rpc_step(request@, assistant@),
{
    let id = copy_or(request, "id", Json::Null);
    let method = text_or_empty(request, "method");
    if eq_str(method.as_str(), "initialize") {
        reply_json(200, rpc_json(&id, "result", server_description_json()))
    } else if eq_str(method.as_str(), "tools/list") {
        let list = Json::object().with("tools", tool_list_json(assistant));
        assert(list@->Object_0 =~= seq![("tools"@, tool_list(assistant@))]);
        reply_json(200, rpc_json(&id, "result", list))
    } else if eq_str(method.as_str(), "tools/call") {
        let params = copy_or(request, "params", Json::Null);
        let name = text_or_empty(&params, "name");
        let arguments = copy_or(&params, "arguments", Json::object());
        McpStep::Call { id, name, arguments }
    } else if eq_str(method.as_str(), "ping") {
        reply_json(200, rpc_json(&id, "result", Json::object()))
    } else if id.is_null() {
        McpStep::Reply(McpReply { status: 202, cors: true, body: None })
    } else {
        let mut message = "Method not found: ".to_string();
        message.append(method.as_str());
        let error = error_json(METHOD_NOT_FOUND, message.as_str());
        reply_json(200, rpc_json(&id, "error", error))
    }
}

/// The reply to a request for a tool call, given the outcome.
pub open spec fn tool_reply(id: JsonView, outcome: Result<Seq<char>, Seq<char>>) -> ReplyView {
    open_reply(
        200,
        match outcome {
            Ok(text) => rpc_body(id, "result"@, text_content(text)),
            Err(e) => rpc_body(id, "error"@, error_object(INTERNAL_ERROR, e)),
        },
    )
}

/// Replies to the request called `id` when the outcome of its tool call is there.
pub fn mcp_tool_reply(id: &Json, outcome: Result<String, String>) -> (r: McpReply)
    ensures
        r@ == tool_reply(id@, outcome_view(outcome)),
{
    let body = match outcome {
        Ok(text) => rpc_json(id, "result", text_content_json(text.as_str())),
        Err(e) => rpc_json(id, "error", error_json(INTERNAL_ERROR, e.as_str())),
    };
    McpReply { status: 200, cors: true, body: Some(body) }
}

/// The numeral of the port that the server listens on.
proof fn lemma_fixed_port()
    ensures
        decimal(FIXED_PORT as nat) == "37242"@,
{
    reveal_strlit("37242");
    reveal_with_fuel(decimal, 6);
    assert(decimal(37242) =~= "37242"@);
}

/// The address that the server listens on.
pub fn listen_address() -> (r: String)
    ensures
        r@ == "127.0.0.1:"@ + decimal(FIXED_PORT as nat),
        r@ == "127.0.0.1:37242"@,
{
    proof {
        lemma_fixed_port();
        reveal_strlit("127.0.0.1:");
        reveal_strlit("37242");
        reveal_strlit("127.0.0.1:37242");
        assert("127.0.0.1:37242"@ =~= "127.0.0.1:"@ + "37242"@);
    }
    let mut r = "127.0.0.1:".to_string();
    r.append(to_decimal(FIXED_PORT as u64).as_str());
    r
}

/// What the port file holds.
pub fn port_file_text() -> (r: String)
    ensures
        r@ == decimal(FIXED_PORT as nat),
        r@ == "37242"@,
{
    proof {
        lemma_fixed_port();
    }
    to_decimal(FIXED_PORT as u64)
}

/// The port that the content of the port file names.
pub open spec fn port_in(content: Option<Seq<char>>) -> Option<u16> {
    match content {
        Some(text) => parsed_u16(trimmed(text, CharClass::White)),
        None => None,
    }
}

/// The port, given whether the server is running and the content of the port file, if it could be
/// read. A file that an earlier run left behind does not count.
pub fn get_mcp_port(running: bool, content: Option<String>) -> (r: Option<u16>)
    ensures
        r == if running {
            port_in(opt_view(content))
        } else {
            None
        },
{
    if !running {
        return None;
    }
    match content {
        Some(text) => parse_u16(trim(text.as_str()).as_str()),
        None => None,
    }
}

/// A port that has been written to the port file is read back.
pub proof fn law_port_is_read_back(port: u16)
    ensures
        port_in(Some(decimal(port as nat))) == Some(port),
{
    let text = decimal(port as nat);
    lemma_decimal_round_trip(port as nat);
    assert(is_digit(text[0]));
    assert(is_digit(text[text.len() - 1]));
    assert(!is_white(text[0]) && !is_white(text[text.len() - 1]));
    assert(trimmed(text, CharClass::White) == text);
    assert(unsigned_digits(text) == text);
}

/// Different tool calls have different names, until the numbers start over.
pub proof fn law_calls_have_different_names<T>(a: CallsView<T>, b: CallsView<T>)
    requires
        a.next != b.next,
    ensures
        a.next_id() != b.next_id(),
{
    lemma_decimal_injective(a.next as nat, b.next as nat);
}

/// The answer to a call reaches the one who waits for it, once.
pub proof fn law_answer_reaches_its_call_once<T>(calls: CallsView<T>, waiter: T)
    ensures
        calls.called(waiter).waiter(calls.next_id()) == Some(waiter),
        calls.called(waiter).answered(calls.next_id()).waiter(calls.next_id()) is None,
{
}

/// An answer to one call leaves every other call waiting, and so does a new call.
pub proof fn law_calls_do_not_disturb_each_other<T>(
    calls: CallsView<T>,
    waiter: T,
    id: Seq<char>,
    other: Seq<char>,
)
    requires
        id != other,
    ensures
        calls.answered(id).waiter(other) == calls.waiter(other),
        other != calls.next_id() ==> calls.called(waiter).waiter(other) == calls.waiter(other),
{
}

/// A new call never takes the place of one that still waits, until the numbers start over.
pub proof fn law_new_calls_displace_none<T>(calls: CallsView<T>, waiter: T, id: Seq<char>)
    requires
        calls.fresh(),
        calls.next < u64::MAX,
    ensures
        calls.waiter(calls.next_id()) is None,
        calls.called(waiter).fresh(),
        calls.answered(id).fresh(),
{
    let after = calls.called(waiter);
    assert forall|n: u64| after.next <= n implies !after.waiting.dom().contains(
        #[trigger] decimal(n as nat),
    ) by {
        lemma_decimal_injective(calls.next as nat, n as nat);
    }
}

/// Something that happens to the tool calls.
pub ghost enum CallStep<T> {
    /// A call is handed to the page.
    Call(T),
    /// The page answers the call with this name.
    Answer(Seq<char>),
}

impl<T> CallsView<T> {
    /// The state after one step.
    pub open spec fn stepped(self, step: CallStep<T>) -> CallsView<T> {
        match step {
            CallStep::Call(waiter) => self.called(waiter),
            CallStep::Answer(id) => self.answered(id),
        }
    }

    /// The state after a run of steps.
    pub open spec fn after(self, steps: Seq<CallStep<T>>) -> CallsView<T>
        decreases steps.len(),
    {
        if steps.len() == 0 {
            self
        } else {
            self.after(steps.drop_last()).stepped(steps.last())
        }
    }

    /// The names that the calls of a run are given, in order.
    pub open spec fn names_given(self, steps: Seq<CallStep<T>>) -> Seq<Seq<char>>
        decreases steps.len(),
    {
        if steps.len() == 0 {
            Seq::empty()
        } else {
            let before = self.names_given(steps.drop_last());
            match steps.last() {
                CallStep::Call(_) => before.push(self.after(steps.drop_last()).next_id()),
                CallStep::Answer(_) => before,
            }
        }
    }
}

/// The number that a count comes to: after the last one the numbers start over.
spec fn number_after(n: int) -> int {
    n % 0x1_0000_0000_0000_0000
}

/// The calls of a run are numbered one after the other.
proof fn lemma_names_given<T>(calls: CallsView<T>, steps: Seq<CallStep<T>>)
    ensures
        calls.after(steps).next == number_after(calls.next + calls.names_given(steps).len()),
        forall|i: int|
            0 <= i < calls.names_given(steps).len() ==> #[trigger] calls.names_given(steps)[i]
                == decimal(number_after(calls.next + i) as nat),
    decreases steps.len(),
{
    if steps.len() > 0 {
        lemma_names_given(calls, steps.drop_last());
    }
}

/// The calls of a run have pairwise different names, as long as there are no more of them than
/// numbers, whatever the page answers in between.
pub proof fn law_calls_of_a_run_have_different_names<T>(
    calls: CallsView<T>,
    steps: Seq<CallStep<T>>,
    i: int,
    j: int,
)
    requires
        calls.names_given(steps).len() <= u64::MAX + 1,
        0 <= i < j < calls.names_given(steps).len(),
    ensures
        calls.names_given(steps)[i] != calls.names_given(steps)[j],
{
    lemma_names_given(calls, steps);
    let m = number_after(calls.next + i);
    let n = number_after(calls.next + j);
    assert(m != n);
    lemma_decimal_injective(m as nat, n as nat);
}

/// A call waits until it is answered: whatever else is called and answered in the meantime, its
/// answer still reaches the one who waits for it, as long as the numbers have not come round.
pub proof fn law_call_waits_for_its_answer<T>(
    calls: CallsView<T>,
    waiter: T,
    steps: Seq<CallStep<T>>,
)
    requires
        calls.called(waiter).names_given(steps).len() <= u64::MAX,
        forall|i: int|
            0 <= i < steps.len() ==> #[trigger] steps[i] != CallStep::<T>::Answer(calls.next_id()),
    ensures
        calls.called(waiter).after(steps).waiter(calls.next_id()) == Some(waiter),
    decreases steps.len(),
{
    let start = calls.called(waiter);
    let id = calls.next_id();
    if steps.len() > 0 {
        let front = steps.drop_last();
        assert forall|i: int| 0 <= i < front.len() implies #[trigger] front[i] != CallStep::<
            T,
        >::Answer(id) by {
            assert(front[i] == steps[i]);
        }
        law_call_waits_for_its_answer(calls, waiter, front);
        lemma_names_given(start, front);
        let before = start.after(front);
        assert(steps.last() == steps[steps.len() - 1]);
        match steps.last() {
            CallStep::Call(_) => {
                lemma_decimal_injective(calls.next as nat, before.next as nat);
            },
            CallStep::Answer(_) => {},
        }
    }
}

/// Every request but a notification is answered under its own name: at once, or when the outcome of
/// its tool call is there. A notification of no known method is accepted without a body.
pub proof fn law_replies_name_their_request(
    request: JsonView,
    assistant: Seq<char>,
    outcome: Result<Seq<char>, Seq<char>>,
)
    ensures
        match rpc_step(request, assistant) {
            StepView::Reply(reply) => if reply.status == 200 {
                reply.body->0.member("id"@) == Some(request_id(request))
            } else {
                reply == (ReplyView { status: 202, cors: true, body: None }) && request_id(request)
                    == JsonView::Null
            },
            StepView::Call { id, .. } => id == request_id(request) && tool_reply(
                id,
                outcome,
            ).body->0.member("id"@) == Some(id),
        },
{
    assert forall|id: JsonView, kind: Seq<char>, value: JsonView|
        kind == "result"@ || kind == "error"@ implies (#[trigger] rpc_body(id, kind, value)).member(
        "id"@,
    ) == Some(id) by {
        reveal_strlit("id");
        reveal_strlit("result");
        reveal_strlit("error");
        assert("id"@.len() == 2);
        let members = rpc_body(id, kind, value)->Object_0;
        assert(members.last() == (kind, value));
        assert(members.drop_last().last() == ("id"@, id));
        reveal_with_fuel(member_of, 3);
    }
}

/// The page's result counts, whatever error comes with it; an error counts where there is no
/// result; and a report of neither is an error.
pub proof fn law_results_come_before_errors(
    text: Seq<char>,
    error: Option<Seq<char>>,
    message: Seq<char>,
)
    ensures
        reported(Some(text), error) == Ok::<Seq<char>, Seq<char>>(text),
        reported(None, Some(message)) == Err::<Seq<char>, Seq<char>>(message),
        reported(None, None) == Err::<Seq<char>, Seq<char>>("no result or error from WebView"@),
{
}

/// The members of an object with two different names.
proof fn lemma_two_members(a: (Seq<char>, JsonView), b: (Seq<char>, JsonView))
    requires
        a.0 != b.0,
    ensures
        JsonView::Object(seq![a, b]).member(a.0) == Some(a.1),
        JsonView::Object(seq![a, b]).member(b.0) == Some(b.1),
{
    assert(seq![a, b].drop_last() =~= seq![a]);
    reveal_with_fuel(member_of, 3);
}

/// The members of an object with three different names, and of no other name.
proof fn lemma_three_members(
    a: (Seq<char>, JsonView),
    b: (Seq<char>, JsonView),
    c: (Seq<char>, JsonView),
    other: Seq<char>,
)
    requires
        a.0 != b.0 && a.0 != c.0 && b.0 != c.0,
    ensures
        JsonView::Object(seq![a, b, c]).member(a.0) == Some(a.1),
        JsonView::Object(seq![a, b, c]).member(b.0) == Some(b.1),
        JsonView::Object(seq![a, b, c]).member(c.0) == Some(c.1),
        other != a.0 && other != b.0 && other != c.0 ==> JsonView::Object(seq![a, b, c]).member(
            other,
        ) is None,
{
    let all = seq![a, b, c];
    assert(all.drop_last() =~= seq![a, b]);
    assert(all.drop_last().drop_last() =~= seq![a]);
    assert(all.drop_last().drop_last().drop_last() =~= Seq::empty());
    reveal_with_fuel(member_of, 4);
}

/// The members of a reply that carries a result or an error.
proof fn lemma_reply_members(id: JsonView, value: JsonView)
    ensures
        rpc_body(id, "result"@, value).member("jsonrpc"@) == Some(JsonView::Text("2.0"@)),
        rpc_body(id, "result"@, value).member("id"@) == Some(id),
        rpc_body(id, "result"@, value).member("result"@) == Some(value),
        rpc_body(id, "result"@, value).member("error"@) is None,
        rpc_body(id, "error"@, value).member("jsonrpc"@) == Some(JsonView::Text("2.0"@)),
        rpc_body(id, "error"@, value).member("id"@) == Some(id),
        rpc_body(id, "error"@, value).member("error"@) == Some(value),
        rpc_body(id, "error"@, value).member("result"@) is None,
{
    reveal_strlit("jsonrpc");
    reveal_strlit("id");
    reveal_strlit("result");
    reveal_strlit("error");
    assert("jsonrpc"@.len() == 7 && "id"@.len() == 2);
    assert("result"@.len() == 6 && "error"@.len() == 5);
    let version = ("jsonrpc"@, JsonView::Text("2.0"@));
    lemma_three_members(version, ("id"@, id), ("result"@, value), "error"@);
    lemma_three_members(version, ("id"@, id), ("error"@, value), "result"@);
}

/// The members of an error.
proof fn lemma_error_members(code: i64, message: Seq<char>)
    ensures
        error_object(code, message).member("code"@) == Some(
            JsonView::Number(JsonNumber::Signed(code)),
        ),
        error_object(code, message).member("message"@) == Some(JsonView::Text(message)),
{
    reveal_strlit("code");
    reveal_strlit("message");
    assert("code"@.len() == 4 && "message"@.len() == 7);
    lemma_two_members(
        ("code"@, JsonView::Number(JsonNumber::Signed(code))),
        ("message"@, JsonView::Text(message)),
    );
}

/// The methods that the server has are all different.
proof fn lemma_different_methods()
    ensures
        "initialize"@ != "tools/list"@,
        "initialize"@ != "tools/call"@,
        "initialize"@ != "ping"@,
        "tools/list"@ != "tools/call"@,
        "tools/list"@ != "ping"@,
        "tools/call"@ != "ping"@,
{
    reveal_strlit("initialize");
    reveal_strlit("tools/list");
    reveal_strlit("tools/call");
    reveal_strlit("ping");
    assert("ping"@.len() == 4);
    assert("initialize"@.len() == 10 && "initialize"@[0] == 'i');
    assert("tools/list"@.len() == 10 && "tools/list"@[0] == 't' && "tools/list"@[6] == 'l');
    assert("tools/call"@.len() == 10 && "tools/call"@[0] == 't' && "tools/call"@[6] == 'c');
}

/// A request for one of the methods that the server answers at once gets its result, and no error.
pub proof fn law_known_methods_have_results(
    request: JsonView,
    assistant: Seq<char>,
    method: Seq<char>,
    result: JsonView,
)
    requires
        request.member("method"@) == Some(JsonView::Text(method)),
        ({
            ||| method == "ping"@ && result == JsonView::Object(Seq::empty())
            ||| method == "tools/list"@ && result == JsonView::Object(
                seq![("tools"@, tool_list(assistant))],
            )
            ||| method == "initialize"@ && result == server_description()
        }),
    ensures
        rpc_step(request, assistant) matches StepView::Reply(reply) && {
            &&& reply.status == 200
            &&& reply.cors
            &&& reply.body is Some
            &&& reply.body->0.member("jsonrpc"@) == Some(JsonView::Text("2.0"@))
            &&& reply.body->0.member("id"@) == match request.member("id"@) {
                Some(id) => Some(id),
                None => Some(JsonView::Null),
            }
            &&& reply.body->0.member("result"@) == Some(result)
            &&& reply.body->0.member("error"@) is None
        },
{
    lemma_different_methods();
    lemma_reply_members(request_id(request), result);
}

/// A request for any other method gets an error that names the method, and no result; without a
/// name of its own it is a notification, and accepted without a body.
pub proof fn law_other_methods_are_refused(
    request: JsonView,
    assistant: Seq<char>,
    method: Seq<char>,
)
    requires
        method != "initialize"@,
        method != "tools/list"@,
        method != "tools/call"@,
        method != "ping"@,
        match request.member("method"@) {
            Some(JsonView::Text(text)) => text == method,
            _ => method == Seq::<char>::empty(),
        },
    ensures
        rpc_step(request, assistant) matches StepView::Reply(reply) && {
            &&& reply.cors
            &&& request.member("id"@) is None || request.member("id"@) == Some(JsonView::Null)
                ==> reply.status == 202 && reply.body is None
            &&& request.member("id"@) matches Some(id) ==> id != JsonView::Null ==> {
                &&& reply.status == 200
                &&& reply.body is Some
                &&& reply.body->0.member("jsonrpc"@) == Some(JsonView::Text("2.0"@))
                &&& reply.body->0.member("id"@) == Some(id)
                &&& reply.body->0.member("result"@) is None
                &&& reply.body->0.member("error"@) is Some
                &&& reply.body->0.member("error"@)->0.member("code"@) == Some(
                    JsonView::Number(JsonNumber::Signed(-32601 as i64)),
                )
                &&& reply.body->0.member("error"@)->0.member("message"@) == Some(
                    JsonView::Text("Method not found: "@ + method),
                )
            }
        },
{
    let message = "Method not found: "@ + method;
    lemma_error_members(METHOD_NOT_FOUND, message);
    lemma_reply_members(request_id(request), error_object(METHOD_NOT_FOUND, message));
}

/// A request for a tool call calls the tool that its parameters name, with the arguments that they
/// hold; a name or arguments that are missing are empty.
pub proof fn law_tools_are_called_as_asked(
    request: JsonView,
    assistant: Seq<char>,
    given: JsonView,
)
    requires
        request.member("method"@) == Some(JsonView::Text("tools/call"@)),
    ensures
        rpc_step(request, assistant) matches StepView::Call { id, name, arguments } && {
            &&& request.member("id"@) is Some ==> id == request.member("id"@)->0
            &&& request.member("id"@) is None ==> id == JsonView::Null
            &&& request.member("params"@) is None ==> name.len() == 0 && arguments
                == JsonView::Object(Seq::empty())
            &&& request.member("params"@) matches Some(params) ==> {
                &&& match params.member("name"@) {
                    Some(JsonView::Text(tool)) => name == tool,
                    _ => name.len() == 0,
                }
                &&& params.member("arguments"@) == Some(given) ==> arguments == given
                &&& params.member("arguments"@) is None ==> arguments == JsonView::Object(
                    Seq::empty(),
                )
            }
        },
{
    lemma_different_methods();
}

/// The outcome of a tool call is told as it is: its text as the one content, or its error with the
/// code of an internal error; and never both.
pub proof fn law_outcomes_are_told(id: JsonView, text: Seq<char>, error: Seq<char>)
    ensures
        ({
            let reply = tool_reply(id, Ok(text));
            let bridge = bridge_body(Ok(text));
            &&& reply.status == 200 && reply.cors && reply.body is Some
            &&& reply.body->0.member("jsonrpc"@) == Some(JsonView::Text("2.0"@))
            &&& reply.body->0.member("id"@) == Some(id)
            &&& reply.body->0.member("error"@) is None
            &&& reply.body->0.member("result"@) == Some(bridge)
            &&& bridge.member("error"@) is None
            &&& bridge.member("content"@) matches Some(JsonView::Array(items)) && {
                &&& items.len() == 1
                &&& items[0].member("type"@) == Some(JsonView::Text("text"@))
                &&& items[0].member("text"@) == Some(JsonView::Text(text))
            }
        }),
        ({
            let reply = tool_reply(id, Err(error));
            let bridge = bridge_body(Err(error));
            &&& reply.status == 200 && reply.cors && reply.body is Some
            &&& reply.body->0.member("jsonrpc"@) == Some(JsonView::Text("2.0"@))
            &&& reply.body->0.member("id"@) == Some(id)
            &&& reply.body->0.member("result"@) is None
            &&& reply.body->0.member("error"@) is Some
            &&& reply.body->0.member("error"@) == bridge.member("error"@)
            &&& bridge.member("content"@) is None
            &&& bridge.member("error"@)->0.member("code"@) == Some(
                JsonView::Number(JsonNumber::Signed(-32603 as i64)),
            )
            &&& bridge.member("error"@)->0.member("message"@) == Some(JsonView::Text(error))
        }),
{
    lemma_reply_members(id, text_content(text));
    lemma_reply_members(id, error_object(INTERNAL_ERROR, error));
    lemma_error_members(INTERNAL_ERROR, error);
    reveal_strlit("type");
    reveal_strlit("text");
    reveal_strlit("content");
    reveal_strlit("error");
    assert("type"@[1] == 'y' && "text"@[1] == 'e');
    assert("content"@.len() == 7 && "error"@.len() == 5);
    lemma_two_members(("type"@, JsonView::Text("text"@)), ("text"@, JsonView::Text(text)));
    reveal_with_fuel(member_of, 2);
    let good = bridge_body(Ok(text))->Object_0;
    let bad = bridge_body(Err(error))->Object_0;
    assert(good.drop_last() =~= Seq::empty());
    assert(bad.drop_last() =~= Seq::empty());
}

/// The list of tools names the two tools of the Drive page and tells what they do; neither takes
/// arguments.
pub proof fn law_tools_are_listed(assistant: Seq<char>, i: int)
    requires
        0 <= i < 2,
    ensures
        tool_list(assistant) matches JsonView::Array(entries) && {
            let schema = entries[i].member("inputSchema"@);
            &&& entries.len() == 2
            &&& entries[i].member("name"@) == Some(
                JsonView::Text(
                    if i == 0 {
                        "list_devices"@
                    } else {
                        "get_drive_status"@
                    },
                ),
            )
            &&& entries[i].member("description"@) == Some(
                JsonView::Text(
                    if i == 0 {
                        "List the Linux computers synced to this Proton Drive account."@
                    } else {
                        "Check whether the Proton Drive desktop client is running and the "@
                            + assistant + " API key is configured."@
                    },
                ),
            )
            &&& schema is Some
            &&& schema->0.member("type"@) == Some(JsonView::Text("object"@))
            &&& schema->0.member("properties"@) == Some(JsonView::Object(Seq::empty()))
            &&& schema->0.member("required"@) == Some(JsonView::Array(Seq::empty()))
        },
{
    reveal_strlit("name");
    reveal_strlit("description");
    reveal_strlit("inputSchema");
    reveal_strlit("type");
    reveal_strlit("properties");
    reveal_strlit("required");
    assert("name"@.len() == 4);
    assert("description"@.len() == 11 && "description"@[0] == 'd');
    assert("inputSchema"@.len() == 11 && "inputSchema"@[0] == 'i');
    assert("type"@.len() == 4 && "properties"@.len() == 10 && "required"@.len() == 8);
    let tool = tool_texts(assistant)[i];
    let entry = tool_entry(tool)->Object_0;
    let schema = entry[2].1->Object_0;
    lemma_three_members(entry[0], entry[1], entry[2], Seq::empty());
    lemma_three_members(schema[0], schema[1], schema[2], Seq::empty());
    assert(tool_list(assistant)->Array_0[i] == tool_entry(tool));
}

/// The server tells which version of the protocol it speaks, that it has tools, and what it is.
pub proof fn law_server_describes_itself()
    ensures
        server_description().member("protocolVersion"@) == Some(JsonView::Text("2024-11-05"@)),
        server_description().member("capabilities"@) is Some,
        server_description().member("capabilities"@)->0.member("tools"@) == Some(
            JsonView::Object(Seq::empty()),
        ),
        server_description().member("serverInfo"@) is Some,
        server_description().member("serverInfo"@)->0.member("name"@) == Some(
            JsonView::Text("proton-drive"@),
        ),
        server_description().member("serverInfo"@)->0.member("version"@) == Some(
            JsonView::Text("2.0.0"@),
        ),
{
    reveal_strlit("protocolVersion");
    reveal_strlit("capabilities");
    reveal_strlit("serverInfo");
    reveal_strlit("name");
    reveal_strlit("version");
    assert("protocolVersion"@.len() == 15 && "capabilities"@.len() == 12);
    assert("serverInfo"@.len() == 10 && "name"@.len() == 4 && "version"@.len() == 7);
    let all = server_description()->Object_0;
    let info = all[2].1->Object_0;
    lemma_three_members(all[0], all[1], all[2], Seq::empty());
    lemma_two_members(info[0], info[1]);
    reveal_with_fuel(member_of, 2);
}

/// The page is told the name of a call, the name of the tool and the arguments.
pub proof fn law_page_is_told_of_calls(id: Seq<char>, name: Seq<char>, arguments: JsonView)
    ensures
        call_event(id, name, arguments).member("id"@) == Some(JsonView::Text(id)),
        call_event(id, name, arguments).member("name"@) == Some(JsonView::Text(name)),
        call_event(id, name, arguments).member("arguments"@) == Some(arguments),
{
    reveal_strlit("id");
    reveal_strlit("name");
    reveal_strlit("arguments");
    assert("id"@.len() == 2 && "name"@.len() == 4 && "arguments"@.len() == 9);
    let all = call_event(id, name, arguments)->Object_0;
    lemma_three_members(all[0], all[1], all[2], Seq::empty());
}

/// Calls are named by their numbers, one after the other; the numbers start over behind the last
/// one. An answer uses up no number.
pub proof fn law_calls_are_numbered_in_turn<T>(
    calls: CallsView<T>,
    waiter: T,
    id: Seq<char>,
)
    ensures
        calls.next_id() == decimal(calls.next as nat),
        calls.next < u64::MAX ==> calls.called(waiter).next == calls.next + 1,
        calls.next == u64::MAX ==> calls.called(waiter).next == 0,
        calls.answered(id).next == calls.next,
        calls.answered(id).waiter(id) is None,
        calls.waiting.dom().contains(id) ==> calls.waiter(id) == Some(calls.waiting[id]),
        !calls.waiting.dom().contains(id) ==> calls.waiter(id) is None,
{
}

/// The port is read from its numeral, whatever white space stands around it; without a file, or
/// from anything but a numeral, none is read.
pub proof fn law_port_may_stand_in_white_space(
    front: Seq<char>,
    port: u16,
    back: Seq<char>,
    text: Seq<char>,
)
    requires
        forall|i: int| 0 <= i < front.len() ==> is_white(#[trigger] front[i]),
        forall|i: int| 0 <= i < back.len() ==> is_white(#[trigger] back[i]),
        text.len() > 0,
        !is_white(text.first()) && !is_white(text.last()),
    ensures
        port_in(Some(front + decimal(port as nat) + back)) == Some(port),
        port_in(Some(front + text + back)) == port_in(Some(text)),
        port_in(Some(front)) is None,
        port_in(None) is None,
        (text[0] != '+' && !('0' <= text[0] <= '9')) ==> port_in(Some(text)) is None,
{
    let none = Seq::<char>::empty();
    let t = decimal(port as nat);
    lemma_decimal_round_trip(port as nat);
    assert(is_digit(t[0]));
    assert(is_digit(t[t.len() - 1]));
    law_trimming_leaves_the_middle(front, t, back, CharClass::White);
    law_trimming_leaves_the_middle(none, t, none, CharClass::White);
    law_trimming_leaves_the_middle(front, text, back, CharClass::White);
    law_trimming_leaves_the_middle(none, text, none, CharClass::White);
    law_trimming_leaves_the_middle(front, none, none, CharClass::White);
    assert(none + t + none =~= t);
    assert(none + text + none =~= text);
    assert(front + none + none =~= front);
    law_port_is_read_back(port);
    if text[0] != '+' && !('0' <= text[0] <= '9') {
        assert(!is_digit(unsigned_digits(text)[0]));
    }
}

} // verus!
