//! The OpenAI Chat Completions wire format: how a provider-neutral request becomes
//! an OpenAI request, and how responses and stream chunks come back.
use vstd::prelude::*;
use crate::providers::{ChatMessage, ChatRole, ContentBlock, LlmRequest, LlmResponse, MessagePart, ToolDefinition,
    StreamEvent, Usage};
use crate::prompt::{text_pieces, extract_text};
use crate::runtime::{normalized_input, tool_input_of};
use crate::text::{is_prefix, join, owned, push_str, str_eq, suffix_from, starts_with_str, trim_end};
use crate::lines::{lines, lines_of};

verus! {

broadcast use vstd::string::group_string_axioms;

/// The model used when none is configured.
pub open spec fn openai_default_model() -> Seq<char> {
    "gpt-4o"@
}

/// The API address used when none is configured.
pub open spec fn openai_default_base_url() -> Seq<char> {
    "https://api.openai.com"@
}

/// An OpenAI (or compatible) chat provider's settings.
#[derive(Debug, Clone, PartialEq, Eq)]
pub struct OpenAiProvider {
    pub api_key: String,
    pub model: String,
    pub base_url: String,
}

/// A message on the wire.
#[derive(Debug, Clone, PartialEq, Eq)]
pub struct OpenAiMessage {
    pub role: String,
    pub content: Option<String>,
    pub tool_calls: Option<Vec<OpenAiToolCall>>,
    pub tool_call_id: Option<String>,
}

/// A function call made by the assistant; `arguments` is JSON text.
#[derive(Debug, Clone, PartialEq, Eq)]
pub struct OpenAiToolCall {
    pub id: String,
    pub kind: String,
    pub function: OpenAiFunctionCall,
}

/// The function and arguments of a call.
#[derive(Debug, Clone, PartialEq, Eq)]
pub struct OpenAiFunctionCall {
    pub name: String,
    pub arguments: String,
}

/// A function offered to the model; `parameters` is JSON schema text.
#[derive(Debug, Clone, PartialEq, Eq)]
pub struct OpenAiTool {
    pub kind: String,
    pub function: OpenAiFunction,
}

/// The description of an offered function.
#[derive(Debug, Clone, PartialEq, Eq)]
pub struct OpenAiFunction {
    pub name: String,
    pub description: String,
    pub parameters: String,
}

/// A chat completion request on the wire (temperature in thousandths).
#[derive(Debug, Clone, PartialEq, Eq)]
pub struct OpenAiRequest {
    pub model: String,
    pub messages: Vec<OpenAiMessage>,
    pub max_tokens: Option<u32>,
    pub temperature_milli: Option<u32>,
    pub tools: Option<Vec<OpenAiTool>>,
}

/// A call by its views: id, type, function name, arguments.
pub type CallView = (Seq<char>, Seq<char>, Seq<char>, Seq<char>);

/// A message by its views: role, content, calls, id of the answered call.
pub type MsgView = (Seq<char>, Option<Seq<char>>, Option<Seq<CallView>>, Option<Seq<char>>);

/// The view of an optional string.
pub open spec fn opt(o: Option<String>) -> Option<Seq<char>> {
    match o {
        Some(s) => Some(s@),
        None => None,
    }
}

/// The view of a call.
pub open spec fn call_view(c: OpenAiToolCall) -> CallView {
    (c.id@, c.kind@, c.function.name@, c.function.arguments@)
}

/// The views of calls.
pub open spec fn call_views(cs: Seq<OpenAiToolCall>) -> Seq<CallView> {
    cs.map_values(|c: OpenAiToolCall| call_view(c))
}

/// The view of a message.
pub open spec fn msg_view(m: OpenAiMessage) -> MsgView {
    (
        m.role@,
        opt(m.content),
        match m.tool_calls {
            Some(cs) => Some(call_views(cs@)),
            None => None,
        },
        opt(m.tool_call_id),
    )
}

/// The views of messages.
pub open spec fn msg_views(ms: Seq<OpenAiMessage>) -> Seq<MsgView> {
    ms.map_values(|m: OpenAiMessage| msg_view(m))
}

/// The wire name of a role.
pub open spec fn role_name(r: ChatRole) -> Seq<char> {
    match r {
        ChatRole::User => "user"@,
        ChatRole::Assistant => "assistant"@,
        ChatRole::System => "system"@,
        ChatRole::Tool => "tool"@,
    }
}

/// Whether any block is a tool result.
pub open spec fn has_tool_result(bs: Seq<ContentBlock>) -> bool {
    exists|i: int| 0 <= i < bs.len() && (#[trigger] bs[i]) is ToolResult
}

/// One `tool` message per tool result, in order.
pub open spec fn tool_messages(bs: Seq<ContentBlock>) -> Seq<MsgView>
    decreases bs.len(),
{
    if bs.len() == 0 {
        Seq::empty()
    } else {
        let rest = tool_messages(bs.drop_last());
        match bs.last() {
            ContentBlock::ToolResult { tool_use_id, content } => rest.push(
                ("tool"@, Some(content@), None, Some(tool_use_id@)),
            ),
            _ => rest,
        }
    }
}

/// The function calls of the tool-use blocks, in order.
pub open spec fn call_list(bs: Seq<ContentBlock>) -> Seq<CallView>
    decreases bs.len(),
{
    if bs.len() == 0 {
        Seq::empty()
    } else {
        let rest = call_list(bs.drop_last());
        match bs.last() {
            ContentBlock::ToolUse { id, name, input } => rest.push((id@, "function"@, name@, input@)),
            _ => rest,
        }
    }
}

/// `Some(t)` unless `t` is empty.
pub open spec fn non_empty(t: Seq<char>) -> Option<Seq<char>> {
    if t.len() == 0 {
        None
    } else {
        Some(t)
    }
}

/// The wire messages for one chat message: tool results become `tool` messages; an
/// assistant's blocks become one message with its text and function calls; text
/// stays text; other blocks keep their text.
pub open spec fn converted(m: ChatMessage) -> Seq<MsgView> {
    match m.content {
        MessagePart::Parts(bs) => if m.role == ChatRole::User && has_tool_result(bs@) {
            tool_messages(bs@)
        } else if m.role == ChatRole::Assistant {
            seq![
                (
                    "assistant"@,
                    non_empty(join(text_pieces(bs@), "\n"@)),
                    if call_list(bs@).len() == 0 {
                        None
                    } else {
                        Some(call_list(bs@))
                    },
                    None,
                ),
            ]
        } else {
            seq![(role_name(m.role), non_empty(join(text_pieces(bs@), "\n"@)), None, None)]
        },
        MessagePart::Text(t) => seq![(role_name(m.role), Some(t@), None, None)],
    }
}

/// The wire messages for chat messages, in order.
pub open spec fn converted_all(ms: Seq<ChatMessage>) -> Seq<MsgView>
    decreases ms.len(),
{
    if ms.len() == 0 {
        Seq::empty()
    } else {
        converted_all(ms.drop_last()) + converted(ms.last())
    }
}

/// The wire messages of a request: the system prompt first, when there is one.
pub open spec fn request_messages(req: LlmRequest) -> Seq<MsgView> {
    (match req.system {
        Some(s) => seq![("system"@, Some(s@), None, None)],
        None => Seq::empty(),
    }) + converted_all(req.messages@)
}

/// A tool by its views: type, name, description, parameters.
pub open spec fn tool_view(t: OpenAiTool) -> CallView {
    (t.kind@, t.function.name@, t.function.description@, t.function.parameters@)
}

/// The wire form of an offered tool.
pub open spec fn offered(t: ToolDefinition) -> CallView {
    ("function"@, t.name@, t.description@, t.input_schema@)
}

fn role_str(r: ChatRole) -> (s: String)
    ensures
        s@ == role_name(r),
{
    match r {
        ChatRole::User => owned("user"),
        ChatRole::Assistant => owned("assistant"),
        ChatRole::System => owned("system"),
        ChatRole::Tool => owned("tool"),
    }
}

fn text_of_blocks(bs: &Vec<ContentBlock>) -> (r: Option<String>)
    ensures
        opt(r) == non_empty(join(text_pieces(bs@), "\n"@)),
{
    let t = extract_text(bs);
    if t.as_str().is_empty() {
        None
    } else {
        Some(t)
    }
}

fn tool_result_messages(bs: &Vec<ContentBlock>, out: &mut Vec<OpenAiMessage>)
    ensures
        msg_views(final(out)@) == msg_views(old(out)@) + tool_messages(bs@),
{
    let ghost start = msg_views(out@);
    let mut i: usize = 0;
    assert(msg_views(out@) =~= start + tool_messages(bs@.take(0)));
    while i < bs.len()
        invariant
            i <= bs@.len(),
            msg_views(out@) == start + tool_messages(bs@.take(i as int)),
        decreases bs@.len() - i,
    {
        proof {
            assert(bs@.take(i + 1).drop_last() =~= bs@.take(i as int));
        }
        let ghost before = out@;
        if let ContentBlock::ToolResult { tool_use_id, content } = &bs[i] {
            let m = OpenAiMessage {
                role: owned("tool"),
                content: Some(content.clone()),
                tool_calls: None,
                tool_call_id: Some(tool_use_id.clone()),
            };
            out.push(m);
            assert(msg_views(out@) =~= msg_views(before).push(msg_view(m)));
        }
        i += 1;
        assert(msg_views(out@) =~= start + tool_messages(bs@.take(i as int)));
    }
    assert(bs@.take(i as int) =~= bs@);
}

fn function_calls(bs: &Vec<ContentBlock>) -> (r: Vec<OpenAiToolCall>)
    ensures
        call_views(r@) == call_list(bs@),
{
    let mut r: Vec<OpenAiToolCall> = Vec::new();
    let mut i: usize = 0;
    assert(call_views(r@) =~= call_list(bs@.take(0)));
    while i < bs.len()
        invariant
            i <= bs@.len(),
            call_views(r@) == call_list(bs@.take(i as int)),
        decreases bs@.len() - i,
    {
        proof {
            assert(bs@.take(i + 1).drop_last() =~= bs@.take(i as int));
        }
        let ghost before = r@;
        if let ContentBlock::ToolUse { id, name, input } = &bs[i] {
            let c = OpenAiToolCall {
                id: id.clone(),
                kind: owned("function"),
                function: OpenAiFunctionCall { name: name.clone(), arguments: input.clone() },
            };
            r.push(c);
            assert(call_views(r@) =~= call_views(before).push(call_view(c)));
        }
        i += 1;
    }
    assert(bs@.take(i as int) =~= bs@);
    r
}

fn has_tool_result_exec(bs: &Vec<ContentBlock>) -> (r: bool)
    ensures
        r == has_tool_result(bs@),
{
    let mut i: usize = 0;
    while i < bs.len()
        invariant
            i <= bs@.len(),
            forall|j: int| 0 <= j < i ==> !((#[trigger] bs@[j]) is ToolResult),
        decreases bs@.len() - i,
    {
        if let ContentBlock::ToolResult { .. } = &bs[i] {
            return true;
        }
        i += 1;
    }
    false
}

fn convert_message(m: &ChatMessage, out: &mut Vec<OpenAiMessage>)
    ensures
        msg_views(final(out)@) == msg_views(old(out)@) + converted(*m),
{
    let ghost before = out@;
    match &m.content {
        MessagePart::Parts(bs) => {
            if m.role == ChatRole::User && has_tool_result_exec(bs) {
                tool_result_messages(bs, out);
            } else if m.role == ChatRole::Assistant {
                let calls = function_calls(bs);
                let tool_calls = if calls.len() == 0 {
                    None
                } else {
                    Some(calls)
                };
                let msg = OpenAiMessage {
                    role: owned("assistant"),
                    content: text_of_blocks(bs),
                    tool_calls,
                    tool_call_id: None,
                };
                out.push(msg);
                assert(msg_views(out@) =~= msg_views(before) + converted(*m));
            } else {
                let msg = OpenAiMessage { role: role_str(m.role), content: text_of_blocks(bs), tool_calls: None, tool_call_id: None };
                out.push(msg);
                assert(msg_views(out@) =~= msg_views(before) + converted(*m));
            }
        },
        MessagePart::Text(t) => {
            let msg = OpenAiMessage { role: role_str(m.role), content: Some(t.clone()), tool_calls: None, tool_call_id: None };
            out.push(msg);
            assert(msg_views(out@) =~= msg_views(before) + converted(*m));
        },
    }
}

/// Whether `r` is the wire request for `req` from a provider defaulting to `model`.
pub open spec fn built(r: OpenAiRequest, req: LlmRequest, model: Seq<char>) -> bool {
    &&& r.model@ == (if req.model@.len() == 0 {
        model
    } else {
        req.model@
    })
    &&& msg_views(r.messages@) == request_messages(req)
    &&& r.max_tokens == req.max_tokens
    &&& r.temperature_milli == req.temperature_milli
    &&& if req.tools@.len() == 0 {
        r.tools is None
    } else {
        r.tools matches Some(ts) && ts@.map_values(|t: OpenAiTool| tool_view(t)) == req.tools@.map_values(
            |t: ToolDefinition| offered(t),
        )
    }
}

impl OpenAiProvider {
    /// A provider with the given key, model (`gpt-4o` by default) and API address
    /// (`https://api.openai.com` by default).
    pub fn new(api_key: String, model: Option<String>, base_url: Option<String>) -> (r: Self)
        ensures
            r.api_key == api_key,
            r.model@ == match model {
                Some(m) => m@,
                None => openai_default_model(),
            },
            r.base_url@ == match base_url {
                Some(b) => b@,
                None => openai_default_base_url(),
            },
    {
        OpenAiProvider {
            api_key,
            model: match model {
                Some(m) => m,
                None => owned("gpt-4o"),
            },
            base_url: match base_url {
                Some(b) => b,
                None => owned("https://api.openai.com"),
            },
        }
    }

    /// The chat completions endpoint: the API address without trailing slashes,
    /// followed by `/v1/chat/completions`.
    pub fn endpoint(&self) -> (r: String)
        ensures
            r@ == crate::anthropic::strip_trailing_slashes(self.base_url@) + "/v1/chat/completions"@,
    {
        let mut s = crate::anthropic::without_trailing_slashes(self.base_url.as_str());
        push_str(&mut s, "/v1/chat/completions");
        s
    }

    /// The wire request for a provider-neutral request: the request's model (this
    /// provider's when empty), the system prompt as the first message, each chat
    /// message converted, and the tools offered as functions.
    pub fn build_request(&self, request: &LlmRequest) -> (r: OpenAiRequest)
        ensures
            built(r, *request, self.model@),
    {
        let model = if request.model.as_str().is_empty() {
            self.model.clone()
        } else {
            request.model.clone()
        };
        let mut messages: Vec<OpenAiMessage> = Vec::new();
        if let Some(system) = &request.system {
            messages.push(OpenAiMessage { role: owned("system"), content: Some(system.clone()), tool_calls: None, tool_call_id: None });
        }
        let ghost head = msg_views(messages@);
        assert(head =~= match request.system {
            Some(s) => seq![("system"@, Some(s@), None, None)],
            None => Seq::<MsgView>::empty(),
        });
        let mut i: usize = 0;
        assert(msg_views(messages@) =~= head + converted_all(request.messages@.take(0)));
        while i < request.messages.len()
            invariant
                i <= request.messages@.len(),
                msg_views(messages@) == head + converted_all(request.messages@.take(i as int)),
            decreases request.messages@.len() - i,
        {
            proof {
                assert(request.messages@.take(i + 1).drop_last() =~= request.messages@.take(i as int));
            }
            convert_message(&request.messages[i], &mut messages);
            i += 1;
            assert(msg_views(messages@) =~= head + converted_all(request.messages@.take(i as int)));
        }
        assert(request.messages@.take(i as int) =~= request.messages@);
        let mut tools: Vec<OpenAiTool> = Vec::new();
        let mut j: usize = 0;
        while j < request.tools.len()
            invariant
                j <= request.tools@.len(),
                tools@.map_values(|t: OpenAiTool| tool_view(t)) == request.tools@.take(j as int).map_values(
                    |t: ToolDefinition| offered(t),
                ),
            decreases request.tools@.len() - j,
        {
            let t = &request.tools[j];
            let ghost before = tools@;
            let w = OpenAiTool {
                kind: owned("function"),
                function: OpenAiFunction { name: t.name.clone(), description: t.description.clone(), parameters: t.input_schema.clone() },
            };
            tools.push(w);
            assert(tools@.map_values(|t: OpenAiTool| tool_view(t)) =~= before.map_values(|t: OpenAiTool| tool_view(t)).push(
                tool_view(w),
            ));
            assert(request.tools@.take(j + 1).map_values(|t: ToolDefinition| offered(t)) =~= request.tools@.take(
                j as int,
            ).map_values(|t: ToolDefinition| offered(t)).push(offered(request.tools@[j as int])));
            j += 1;
        }
        assert(request.tools@.take(j as int) =~= request.tools@);
        OpenAiRequest {
            model,
            messages,
            max_tokens: request.max_tokens,
            temperature_milli: request.temperature_milli,
            tools: if tools.len() == 0 {
                None
            } else {
                Some(tools)
            },
        }
    }
}

/// OpenAI's finish reasons in the provider-neutral vocabulary: `stop` is
/// `end_turn`, `tool_calls` is `tool_use`, others stay.
pub open spec fn stop_reason_of(reason: Seq<char>) -> Seq<char> {
    if reason == "stop"@ {
        "end_turn"@
    } else if reason == "tool_calls"@ {
        "tool_use"@
    } else {
        reason
    }
}

/// Map a finish reason to the provider-neutral vocabulary.
pub fn map_stop_reason(reason: &str) -> (r: String)
    ensures
        r@ == stop_reason_of(reason@),
{
    if str_eq(reason, "stop") {
        owned("end_turn")
    } else if str_eq(reason, "tool_calls") {
        owned("tool_use")
    } else {
        owned(reason)
    }
}

/// Token counts of a response.
#[derive(Debug, Clone, Copy, PartialEq, Eq)]
pub struct OpenAiUsage {
    pub prompt_tokens: u32,
    pub completion_tokens: u32,
}

/// One choice of a response.
#[derive(Debug, Clone, PartialEq, Eq)]
pub struct OpenAiChoice {
    pub message: OpenAiMessage,
    pub finish_reason: Option<String>,
}

/// A chat completion response on the wire.
#[derive(Debug, Clone, PartialEq, Eq)]
pub struct OpenAiResponse {
    pub choices: Vec<OpenAiChoice>,
    pub model: String,
    pub usage: Option<OpenAiUsage>,
}

/// A block by its views: text, or tool use with id, name and input text.
pub open spec fn block_view(b: ContentBlock) -> (Seq<char>, Seq<char>, Seq<char>, Seq<char>) {
    match b {
        ContentBlock::Text { text } => ("text"@, text@, Seq::empty(), Seq::empty()),
        ContentBlock::ToolUse { id, name, input } => ("tool_use"@, id@, name@, input@),
        ContentBlock::Image { url } => ("image"@, url@, Seq::empty(), Seq::empty()),
        ContentBlock::ToolResult { tool_use_id, content } => ("tool_result"@, tool_use_id@, content@, Seq::empty()),
    }
}

/// The blocks of a response's first choice: its non-empty text, then one tool-use
/// block per call, the arguments parsed as JSON (`null` when they are not).
pub open spec fn choice_blocks(m: OpenAiMessage) -> Seq<(Seq<char>, Seq<char>, Seq<char>, Seq<char>)> {
    (match m.content {
        Some(t) => if t@.len() > 0 {
            seq![("text"@, t@, Seq::<char>::empty(), Seq::<char>::empty())]
        } else {
            Seq::empty()
        },
        None => Seq::empty(),
    }) + match m.tool_calls {
        Some(cs) => cs@.map_values(|c: OpenAiToolCall| ("tool_use"@, c.id@, c.function.name@, normalized_input(c.function.arguments@))),
        None => Seq::empty(),
    }
}

/// Convert a response: the first choice's text and calls (nothing without a
/// choice), the model, the usage, and the finish reason in the neutral vocabulary.
pub fn from_openai_response(response: OpenAiResponse) -> (r: LlmResponse)
    ensures
        r.model == response.model,
        r.usage == match response.usage {
            Some(u) => Some(Usage { input_tokens: u.prompt_tokens, output_tokens: u.completion_tokens }),
            None => None,
        },
        response.choices@.len() == 0 ==> r.content@.len() == 0 && r.stop_reason is None,
        response.choices@.len() > 0 ==> {
            &&& r.content@.map_values(|b: ContentBlock| block_view(b)) == choice_blocks(response.choices@[0].message)
            &&& opt(r.stop_reason) == match response.choices@[0].finish_reason {
                Some(f) => Some(stop_reason_of(f@)),
                None => None,
            }
        },
{
    let usage = match response.usage {
        Some(u) => Some(Usage { input_tokens: u.prompt_tokens, output_tokens: u.completion_tokens }),
        None => None,
    };
    if response.choices.len() == 0 {
        return LlmResponse { content: Vec::new(), model: response.model, usage, stop_reason: None };
    }
    let c = &response.choices[0];
    let mut blocks: Vec<ContentBlock> = Vec::new();
    if let Some(t) = &c.message.content {
        if !t.as_str().is_empty() {
            blocks.push(ContentBlock::Text { text: t.clone() });
        }
    }
    let ghost head = blocks@.map_values(|b: ContentBlock| block_view(b));
    if let Some(calls) = &c.message.tool_calls {
        let mut i: usize = 0;
        while i < calls.len()
            invariant
                i <= calls@.len(),
                blocks@.map_values(|b: ContentBlock| block_view(b)) == head + calls@.take(i as int).map_values(
                    |c: OpenAiToolCall| ("tool_use"@, c.id@, c.function.name@, normalized_input(c.function.arguments@)),
                ),
            decreases calls@.len() - i,
        {
            let tc = &calls[i];
            let ghost before = blocks@;
            let b = ContentBlock::ToolUse {
                id: tc.id.clone(),
                name: tc.function.name.clone(),
                input: tool_input_of(tc.function.arguments.as_str()),
            };
            blocks.push(b);
            assert(blocks@.map_values(|b: ContentBlock| block_view(b)) =~= before.map_values(|b: ContentBlock| block_view(b)).push(
                block_view(b),
            ));
            assert(calls@.take(i + 1).map_values(
                |c: OpenAiToolCall| ("tool_use"@, c.id@, c.function.name@, normalized_input(c.function.arguments@)),
            ) =~= calls@.take(i as int).map_values(
                |c: OpenAiToolCall| ("tool_use"@, c.id@, c.function.name@, normalized_input(c.function.arguments@)),
            ).push(("tool_use"@, tc.id@, tc.function.name@, normalized_input(tc.function.arguments@))));
            i += 1;
        }
        assert(calls@.take(i as int) =~= calls@);
    }
    assert(blocks@.map_values(|b: ContentBlock| block_view(b)) =~= choice_blocks(c.message));
    let stop_reason = match &c.finish_reason {
        Some(f) => Some(map_stop_reason(f.as_str())),
        None => None,
    };
    LlmResponse { content: blocks, model: response.model, usage, stop_reason }
}

/// The arguments fragment of a streamed call.
#[derive(Debug, Clone, PartialEq, Eq)]
pub struct OpenAiStreamFunctionDelta {
    pub name: Option<String>,
    pub arguments: Option<String>,
}

/// A streamed piece of a call.
#[derive(Debug, Clone, PartialEq, Eq)]
pub struct OpenAiStreamToolCallDelta {
    pub index: usize,
    pub id: Option<String>,
    pub function: Option<OpenAiStreamFunctionDelta>,
}

/// The new content of a streamed choice.
#[derive(Debug, Clone, PartialEq, Eq)]
pub struct OpenAiStreamDelta {
    pub content: Option<String>,
    pub tool_calls: Option<Vec<OpenAiStreamToolCallDelta>>,
}

/// A streamed choice.
#[derive(Debug, Clone, PartialEq, Eq)]
pub struct OpenAiStreamChoice {
    pub delta: OpenAiStreamDelta,
    pub finish_reason: Option<String>,
}

/// A streamed chunk.
#[derive(Debug, Clone, PartialEq, Eq)]
pub struct OpenAiStreamChunk {
    pub choices: Vec<OpenAiStreamChoice>,
    pub usage: Option<OpenAiUsage>,
}

/// An event by its views: kind, text or id, name, index.
pub open spec fn event_view(e: StreamEvent) -> (nat, Seq<char>, Seq<char>, int, Option<Usage>) {
    match e {
        StreamEvent::TextDelta(t) => (0, t@, Seq::empty(), 0, None),
        StreamEvent::ToolUseStart { index, id, name } => (1, id@, name@, index as int, None),
        StreamEvent::InputJsonDelta(j) => (2, j@, Seq::empty(), 0, None),
        StreamEvent::ContentBlockStop { index } => (3, Seq::empty(), Seq::empty(), index as int, None),
        StreamEvent::MessageDelta { stop_reason, usage } => (
            4,
            match stop_reason {
                Some(s) => s@,
                None => Seq::empty(),
            },
            Seq::empty(),
            if stop_reason is Some { 1 } else { 0 },
            usage,
        ),
        StreamEvent::MessageStop => (5, Seq::empty(), Seq::empty(), 0, None),
    }
}

/// An event view.
pub type EventView = (nat, Seq<char>, Seq<char>, int, Option<Usage>);

/// The views of events.
pub open spec fn event_views(es: Seq<StreamEvent>) -> Seq<EventView> {
    es.map_values(|e: StreamEvent| event_view(e))
}

/// The events of one streamed call piece: a start when it has an id, then its
/// non-empty argument fragment.
pub open spec fn delta_events(d: OpenAiStreamToolCallDelta) -> Seq<EventView> {
    let start = match d.id {
        Some(id) => seq![(1nat, id@, match d.function {
            Some(f) => match f.name {
                Some(n) => n@,
                None => Seq::empty(),
            },
            None => Seq::empty(),
        }, d.index as int, None::<Usage>)],
        None => Seq::empty(),
    };
    let args = match d.function {
        Some(f) => match f.arguments {
            Some(a) => if a@.len() > 0 {
                seq![(2nat, a@, Seq::<char>::empty(), 0int, None::<Usage>)]
            } else {
                Seq::empty()
            },
            None => Seq::empty(),
        },
        None => Seq::empty(),
    };
    start + args
}

/// The events of streamed call pieces, in order.
pub open spec fn call_events(ds: Seq<OpenAiStreamToolCallDelta>) -> Seq<EventView>
    decreases ds.len(),
{
    if ds.len() == 0 {
        Seq::empty()
    } else {
        call_events(ds.drop_last()) + delta_events(ds.last())
    }
}

fn push_delta_events(d: &OpenAiStreamToolCallDelta, events: &mut Vec<StreamEvent>)
    ensures
        event_views(final(events)@) == event_views(old(events)@) + delta_events(*d),
{
    let ghost before = event_views(events@);
    if let Some(id) = &d.id {
        let name = match &d.function {
            Some(f) => match &f.name {
                Some(n) => n.clone(),
                None => String::new(),
            },
            None => String::new(),
        };
        let e = StreamEvent::ToolUseStart { index: d.index, id: id.clone(), name };
        events.push(e);
        assert(event_views(events@) =~= before.push(event_view(e)));
    }
    let ghost mid = event_views(events@);
    if let Some(f) = &d.function {
        if let Some(args) = &f.arguments {
            if !args.as_str().is_empty() {
                let e = StreamEvent::InputJsonDelta(args.clone());
                events.push(e);
                assert(event_views(events@) =~= mid.push(event_view(e)));
            }
        }
    }
    assert(event_views(events@) =~= before + delta_events(*d));
}

/// The events of a chunk's first choice: its non-empty text, its call pieces, and a
/// message delta with the mapped finish reason and the usage when it finishes.
pub open spec fn chunk_events(c: OpenAiStreamChunk) -> Seq<EventView> {
    if c.choices@.len() == 0 {
        Seq::empty()
    } else {
        let ch = c.choices@[0];
        (match ch.delta.content {
            Some(t) => if t@.len() > 0 {
                seq![(0nat, t@, Seq::<char>::empty(), 0int, None::<Usage>)]
            } else {
                Seq::empty()
            },
            None => Seq::empty(),
        }) + (match ch.delta.tool_calls {
            Some(ds) => call_events(ds@),
            None => Seq::empty(),
        }) + match ch.finish_reason {
            Some(f) => seq![(4nat, stop_reason_of(f@), Seq::<char>::empty(), 1int, match c.usage {
                Some(u) => Some(Usage { input_tokens: u.prompt_tokens, output_tokens: u.completion_tokens }),
                None => None,
            })],
            None => Seq::empty(),
        }
    }
}

/// The events of a streamed chunk; `None` when it has none (or no choice).
pub fn parse_stream_chunk(chunk: &OpenAiStreamChunk) -> (r: Option<Vec<StreamEvent>>)
    ensures
        chunk_events(*chunk).len() == 0 ==> r is None,
        chunk_events(*chunk).len() > 0 ==> (r matches Some(v) && event_views(v@) == chunk_events(*chunk)),
{
    if chunk.choices.len() == 0 {
        return None;
    }
    let ch = &chunk.choices[0];
    let mut events: Vec<StreamEvent> = Vec::new();
    if let Some(t) = &ch.delta.content {
        if !t.as_str().is_empty() {
            events.push(StreamEvent::TextDelta(t.clone()));
        }
    }
    let ghost a = event_views(events@);
    if let Some(ds) = &ch.delta.tool_calls {
        let mut i: usize = 0;
        assert(event_views(events@) =~= a + call_events(ds@.take(0)));
        while i < ds.len()
            invariant
                i <= ds@.len(),
                event_views(events@) == a + call_events(ds@.take(i as int)),
            decreases ds@.len() - i,
        {
            proof {
                assert(ds@.take(i + 1).drop_last() =~= ds@.take(i as int));
            }
            push_delta_events(&ds[i], &mut events);
            i += 1;
            assert(event_views(events@) =~= a + call_events(ds@.take(i as int)));
        }
        assert(ds@.take(i as int) =~= ds@);
    }
    let ghost b = event_views(events@);
    if let Some(f) = &ch.finish_reason {
        let usage = match chunk.usage {
            Some(u) => Some(Usage { input_tokens: u.prompt_tokens, output_tokens: u.completion_tokens }),
            None => None,
        };
        let e = StreamEvent::MessageDelta { stop_reason: Some(map_stop_reason(f.as_str())), usage };
        events.push(e);
        assert(event_views(events@) =~= b.push(event_view(e)));
    }
    assert(event_views(events@) =~= chunk_events(*chunk));
    if events.len() == 0 {
        None
    } else {
        Some(events)
    }
}

/// The payload of the last `data: ` line among `ls`.
pub open spec fn last_data(ls: Seq<Seq<char>>) -> Option<Seq<char>>
    decreases ls.len(),
{
    if ls.len() == 0 {
        None
    } else if is_prefix("data: "@, ls.last()) {
        Some(ls.last().skip(6))
    } else {
        last_data(ls.drop_last())
    }
}

/// What a streamed event block carries.
#[derive(Debug, Clone, PartialEq, Eq)]
pub enum SseData {
    /// The `[DONE]` marker that ends the stream.
    Done,
    /// A chunk's JSON text.
    Data(String),
}

/// What an event block carries: nothing without a `data: ` line, the end marker,
/// or the JSON text of its last `data: ` line.
pub fn sse_data(block: &str) -> (r: Option<SseData>)
    ensures
        match last_data(lines(block@)) {
            None => r is None,
            Some(d) => if d == "[DONE]"@ {
                r == Some(SseData::Done)
            } else {
                r matches Some(SseData::Data(t)) && t@ == d
            },
        },
{
    let ls = lines_of(block);
    let ghost all = lines(block@);
    let mut found: Option<String> = None;
    let mut i: usize = 0;
    while i < ls.len()
        invariant
            i <= ls@.len(),
            crate::text::views(ls@) == all,
            match found {
                Some(f) => last_data(all.take(i as int)) == Some(f@),
                None => last_data(all.take(i as int)) is None,
            },
        decreases ls@.len() - i,
    {
        proof {
            reveal_strlit("data: ");
            assert(all.take(i + 1).drop_last() =~= all.take(i as int));
            assert(all.take(i + 1).last() == ls@[i as int]@);
        }
        if starts_with_str(ls[i].as_str(), "data: ") {
            found = Some(suffix_from(ls[i].as_str(), 6));
        }
        i += 1;
    }
    assert(all.take(i as int) =~= all);
    match found {
        None => None,
        Some(d) => if str_eq(d.as_str(), "[DONE]") {
            Some(SseData::Done)
        } else {
            Some(SseData::Data(d))
        },
    }
}

/// An event as it reaches the consumer when it is not the first of its chunk: the
/// usage of a message delta is not passed on.
pub open spec fn relayed(e: StreamEvent) -> StreamEvent {
    match e {
        StreamEvent::MessageDelta { stop_reason, usage } => StreamEvent::MessageDelta { stop_reason, usage: None },
        _ => e,
    }
}

/// The events of one chunk as the stream hands them on, in order: the first as it
/// is, the others without message-delta usage.
pub fn relayed_events(events: Vec<StreamEvent>) -> (r: Vec<StreamEvent>)
    ensures
        r@.len() == events@.len(),
        events@.len() > 0 ==> r@[0] == events@[0],
        forall|i: int| 1 <= i < r@.len() ==> r@[i] == relayed(#[trigger] events@[i]),
{
    let mut out = events;
    let ghost orig = out@;
    let mut i: usize = 1;
    while i < out.len()
        invariant
            1 <= i,
            out@.len() == orig.len(),
            orig.len() > 0 ==> out@[0] == orig[0],
            forall|j: int| 1 <= j < i && j < out@.len() ==> out@[j] == relayed(#[trigger] orig[j]),
            forall|j: int| i <= j < out@.len() ==> out@[j] == orig[j],
        decreases out@.len() - i,
    {
        let replacement = match &out[i] {
            StreamEvent::MessageDelta { stop_reason, usage: _ } => Some(StreamEvent::MessageDelta {
                stop_reason: match stop_reason {
                    Some(s) => Some(s.clone()),
                    None => None,
                },
                usage: None,
            }),
            _ => None,
        };
        if let Some(e) = replacement {
            out.set(i, e);
        }
        i += 1;
    }
    out
}

} // verus!
